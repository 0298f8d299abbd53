//! Building the topic tree from a book's chapters.
//!
//! Each chapter carries a display name, an optional relative source path,
//! its markdown text, and ordered sub-chapters.  A chapter with no source is
//! skipped but its children are kept, hoisted to its place; a chapter whose
//! source was already seen earlier in traversal order is dropped with its
//! whole subtree, so each source file contributes exactly one topic.

use crate::builder::ChmBuilder;
use crate::builder::ChmTopicBuilder;
use crate::contents::Corpus;
use crate::contents::DEPENDENCY_FUEL;
use crate::contents::add_file_spec;
use crate::error::BuildIssue;
use crate::error::ChmError;
use crate::hhc::EntryModel;
use crate::hhc::count_children;
use crate::hhc::node_count;
use crate::language::ChmLanguage;
use crate::language::lower_of;
use crate::utilities::join_spec;
use crate::utilities::join_path;
use crate::utilities::str_eq;
use crate::utilities::to_windows_path;
use crate::utilities::to_windows_spec;
use vstd::prelude::*;
use vstd::string::StrSliceExecFns;
use vstd::string::StringExecFns;
use vstd::utf8::encode_utf8;

verus! {

/// The ghost shape of a chapter.
#[verifier::ext_equal]
pub ghost struct ChapterModel {
    /// Display name.
    pub name: Seq<char>,
    /// Relative source path, if the chapter has a backing file.
    pub source_path: Option<Seq<char>>,
    /// The chapter's markdown text.
    pub content: Seq<char>,
    /// Ordered sub-chapters.
    pub sub_items: Seq<ChapterModel>,
}

/// One chapter of a book, as the upstream generator hands it over.
pub struct Chapter {
    /// Display name.
    pub name: String,
    /// Relative source path, if the chapter has a backing file.
    pub source_path: Option<String>,
    /// The chapter's markdown text.
    pub content: String,
    /// Ordered sub-chapters.
    pub sub_items: Vec<Chapter>,
}

/// The model of one chapter.
pub open spec fn chapter_model(c: Chapter) -> ChapterModel
    decreases c,
{
    ChapterModel {
        name: c.name@,
        source_path: match c.source_path {
            Some(p) => Some(p@),
            None => None,
        },
        content: c.content@,
        sub_items: chapter_models(c.sub_items@),
    }
}

/// The models of a list of chapters.
pub open spec fn chapter_models(s: Seq<Chapter>) -> Seq<ChapterModel>
    decreases s,
{
    if s.len() == 0 {
        Seq::empty()
    } else {
        seq![chapter_model(s[0])] + chapter_models(s.skip(1))
    }
}

/// Length and elementwise reading of `chapter_models`.
pub proof fn lemma_chapter_models(s: Seq<Chapter>)
    ensures
        chapter_models(s).len() == s.len(),
        forall|i: int| 0 <= i < s.len() ==> chapter_models(s)[i] == chapter_model(s[i]),
    decreases s,
{
    if s.len() > 0 {
        lemma_chapter_models(s.skip(1));
    }
}

impl View for Chapter {
    type V = ChapterModel;

    open spec fn view(&self) -> ChapterModel {
        chapter_model(*self)
    }
}

/// The source file of a chapter, as handed to the transformer: the relative
/// path in backslash form, under the book's `src` directory.
pub open spec fn chapter_source_spec(p: Seq<char>) -> Seq<char> {
    join_spec("src"@, to_windows_spec(p))
}

/// The topics one chapter contributes, with the visited sources threaded
/// through: none for a duplicate (its subtree is dropped), the children
/// hoisted for a chapter without a source, otherwise one topic whose
/// children are what the sub-chapters contribute.
pub open spec fn topic_of_chapter(
    ch: ChapterModel,
    visited: Seq<Seq<char>>,
    corpus: Corpus,
) -> Result<(Seq<EntryModel>, Seq<Seq<char>>), BuildIssue>
    decreases ch, 0int,
{
    match ch.source_path {
        None => topics_of_chapters(ch.sub_items, visited, corpus),
        Some(p) => {
            if visited.contains(p) {
                Ok((Seq::empty(), visited))
            } else {
                let source = chapter_source_spec(p);
                match add_file_spec(
                    source,
                    encode_utf8(ch.content),
                    corpus,
                    DEPENDENCY_FUEL as nat,
                ) {
                    Err(issue) => Err(issue),
                    Ok(fs) => match topics_of_chapters(ch.sub_items, visited.push(p), corpus) {
                        Err(issue) => Err(issue),
                        Ok(pair) => Ok(
                            (
                                seq![
                                    EntryModel {
                                        title: ch.name,
                                        file: to_windows_spec(fs.last().path),
                                        children: pair.0,
                                        files: fs,
                                    },
                                ],
                                pair.1,
                            ),
                        ),
                    },
                }
            }
        },
    }
}

/// The topics a list of chapters contributes, in order.
pub open spec fn topics_of_chapters(
    chs: Seq<ChapterModel>,
    visited: Seq<Seq<char>>,
    corpus: Corpus,
) -> Result<(Seq<EntryModel>, Seq<Seq<char>>), BuildIssue>
    decreases chs, 1int,
{
    if chs.len() == 0 {
        Ok((Seq::empty(), visited))
    } else {
        match topic_of_chapter(chs[0], visited, corpus) {
            Err(issue) => Err(issue),
            Ok(first) => match topics_of_chapters(chs.skip(1), first.1, corpus) {
                Err(issue) => Err(issue),
                Ok(rest) => Ok((first.0 + rest.0, rest.1)),
            },
        }
    }
}

/// The models of a list of topic builders.
pub open spec fn topic_models(s: Seq<ChmTopicBuilder>) -> Seq<EntryModel>
    decreases s,
{
    if s.len() == 0 {
        Seq::empty()
    } else {
        seq![s[0]@] + topic_models(s.skip(1))
    }
}

/// Length and elementwise reading of `topic_models`.
pub proof fn lemma_topic_models(s: Seq<ChmTopicBuilder>)
    ensures
        topic_models(s).len() == s.len(),
        forall|i: int| 0 <= i < s.len() ==> topic_models(s)[i] == s[i]@,
    decreases s,
{
    if s.len() > 0 {
        lemma_topic_models(s.skip(1));
    }
}

/// Whether a vector of strings holds `w`, stated over the views.
fn visited_contains(v: &Vec<String>, w: &str) -> (r: bool)
    ensures
        r == v.deep_view().contains(w@),
{
    let n = v.len();
    let mut i: usize = 0;
    while i < n
        invariant
            i <= n,
            n == v@.len(),
            forall|t: int| 0 <= t < i ==> v.deep_view()[t] != w@,
        decreases n - i,
    {
        if str_eq(v[i].as_str(), w) {
            proof {
                assert(v.deep_view()[i as int] == w@);
            }
            return true;
        }
        i = i + 1;
    }
    proof {
        assert(forall|t: int| 0 <= t < v.deep_view().len() ==> v.deep_view()[t] != w@);
    }
    false
}

impl Chapter {
    /// The topics this chapter contributes: none for an already-seen
    /// source, the children hoisted when the chapter has no source,
    /// otherwise one topic with the sub-chapters nested under it.
    pub fn as_topic(&self, visited: &mut Vec<String>, corpus: &Corpus) -> (r: Result<
        Vec<ChmTopicBuilder>,
        ChmError,
    >)
        ensures
            match r {
                Ok(ts) => topic_of_chapter(self@, old(visited).deep_view(), *corpus) == Ok::<
                    _,
                    BuildIssue,
                >((topic_models(ts@), final(visited).deep_view())),
                Err(e) => topic_of_chapter(self@, old(visited).deep_view(), *corpus) == Err::<
                    (Seq<EntryModel>, Seq<Seq<char>>),
                    _,
                >(e@),
            },
        decreases *self, 1int,
    {
        match &self.source_path {
            None => {
                let r = build_topics(&self.sub_items, visited, corpus, Ghost(*self));
                proof {
                    assert(self@.sub_items == chapter_models(self.sub_items@));
                    assert(self@.source_path is None);
                }
                r
            },
            Some(p) => {
                if visited_contains(visited, p.as_str()) {
                    proof {
                        lemma_topic_models(Seq::<ChmTopicBuilder>::empty());
                    }
                    return Ok(Vec::new());
                }
                let wp = to_windows_path(p.as_str());
                let source = join_path("src", wp.as_str());
                let bytes = self.content.as_str().as_bytes_vec();
                match ChmTopicBuilder::new(
                    self.name.as_str(),
                    source.as_str(),
                    bytes,
                    corpus,
                ) {
                    Err(e) => Err(e),
                    Ok(topic) => {
                        let mut topic = topic;
                        let ghost v0 = visited.deep_view();
                        visited.push(p.clone());
                        proof {
                            assert(visited.deep_view() =~= v0.push(p@));
                        }
                        match build_topics(&self.sub_items, visited, corpus, Ghost(*self)) {
                            Err(e) => Err(e),
                            Ok(kids) => {
                                let ghost base = topic@;
                                let ghost kids_model = topic_models(kids@);
                                let mut kids = kids;
                                let ghost mut consumed: int = 0;
                                proof {
                                    lemma_topic_models(kids@);
                                    assert(kids_model.take(0) =~= Seq::<EntryModel>::empty());
                                    assert(base.children.len() == 0);
                                    assert(base.children + kids_model.take(0) =~= base.children);
                                }
                                while kids.len() > 0
                                    invariant
                                        0 <= consumed <= kids_model.len(),
                                        topic_models(kids@) =~= kids_model.skip(consumed),
                                        topic@ == (EntryModel {
                                            children: base.children + kids_model.take(consumed),
                                            ..base
                                        }),
                                    decreases kids@.len(),
                                {
                                    let ghost ks0 = kids@;
                                    proof {
                                        lemma_topic_models(ks0);
                                        assert(topic_models(ks0)[0] == ks0[0]@);
                                        assert(kids_model.skip(consumed)[0] == kids_model[consumed]);
                                        assert(kids_model[consumed] == ks0[0]@);
                                    }
                                    let child = kids.remove(0);
                                    topic.with_child(child);
                                    proof {
                                        assert(kids@ =~= ks0.skip(1));
                                        lemma_topic_models(kids@);
                                        assert forall|t: int|
                                            0 <= t < kids@.len() implies topic_models(kids@)[t]
                                            == kids_model.skip(consumed + 1)[t] by {
                                            lemma_topic_models(ks0);
                                            assert(kids@[t] == ks0[t + 1]);
                                            assert(topic_models(ks0)[t + 1] == ks0[t + 1]@);
                                            assert(kids_model.skip(consumed)[t + 1]
                                                == kids_model[consumed + 1 + t]);
                                        }
                                        assert(topic_models(kids@) =~= kids_model.skip(
                                            consumed + 1,
                                        ));
                                        assert(child@ == kids_model[consumed]);
                                        assert(base.children + kids_model.take(consumed + 1)
                                            =~= (base.children + kids_model.take(consumed)).push(
                                            kids_model[consumed],
                                        ));
                                        consumed = consumed + 1;
                                    }
                                }
                                proof {
                                    assert(kids_model.skip(consumed).len() == 0);
                                    assert(kids_model.take(consumed) =~= kids_model);
                                    assert(base.children + kids_model =~= kids_model);
                                }
                                let mut out: Vec<ChmTopicBuilder> = Vec::new();
                                out.push(topic);
                                proof {
                                    lemma_topic_models(out@);
                                    assert(topic_models(out@) =~= seq![out@[0]@]);
                                    let src_spec = chapter_source_spec(p@);
                                    match add_file_spec(
                                        src_spec,
                                        encode_utf8(self@.content),
                                        *corpus,
                                        DEPENDENCY_FUEL as nat,
                                    ) {
                                        Ok(fs) => {
                                            match topics_of_chapters(
                                                self@.sub_items,
                                                v0.push(p@),
                                                *corpus,
                                            ) {
                                                Ok(pair) => {
                                                    assert(kids_model == pair.0);
                                                    assert(topic@ =~= EntryModel {
                                                        title: self@.name,
                                                        file: to_windows_spec(fs.last().path),
                                                        children: pair.0,
                                                        files: fs,
                                                    });
                                                    assert(topic_models(out@) =~= seq![topic@]);
                                                },
                                                Err(_) => {
                                                    assert(false);
                                                },
                                            }
                                        },
                                        Err(_) => {
                                            assert(false);
                                        },
                                    }
                                    assert(v0 == old(visited).deep_view());
                                    assert(self@.source_path == Some(p@));
                                    assert(!v0.contains(p@));
                                    assert(topic_of_chapter(self@, v0, *corpus) == Ok::<
                                        (Seq<EntryModel>, Seq<Seq<char>>),
                                        BuildIssue,
                                    >((topic_models(out@), visited.deep_view())));
                                }
                                Ok(out)
                            },
                        }
                    },
                }
            },
        }
    }
}

/// The topics a list of chapters contributes, threading the visited set.
/// The ghost parent is only there to justify termination.
fn build_topics(
    chapters: &Vec<Chapter>,
    visited: &mut Vec<String>,
    corpus: &Corpus,
    parent: Ghost<Chapter>,
) -> (r: Result<Vec<ChmTopicBuilder>, ChmError>)
    requires
        chapters@ == parent@.sub_items@,
    ensures
        match r {
            Ok(ts) => topics_of_chapters(
                chapter_models(chapters@),
                old(visited).deep_view(),
                *corpus,
            ) == Ok::<_, BuildIssue>((topic_models(ts@), final(visited).deep_view())),
            Err(e) => topics_of_chapters(
                chapter_models(chapters@),
                old(visited).deep_view(),
                *corpus,
            ) == Err::<(Seq<EntryModel>, Seq<Seq<char>>), _>(e@),
        },
    decreases parent@, 0int,
{
    let ghost cms = chapter_models(chapters@);
    let mut out: Vec<ChmTopicBuilder> = Vec::new();
    let n = chapters.len();
    let mut i: usize = 0;
    proof {
        lemma_chapter_models(chapters@);
        lemma_topic_models(out@);
        assert(cms.skip(0) =~= cms);
        assert(topic_models(out@) =~= Seq::<EntryModel>::empty());
    }
    while i < n
        invariant
            i <= n,
            n == chapters@.len(),
            cms == chapter_models(chapters@),
            cms.len() == n,
            chapters@ == parent@.sub_items@,
            match topics_of_chapters(cms.skip(i as int), visited.deep_view(), *corpus) {
                Ok(pair) => topics_of_chapters(cms, old(visited).deep_view(), *corpus) == Ok::<
                    _,
                    BuildIssue,
                >((topic_models(out@) + pair.0, pair.1)),
                Err(e) => topics_of_chapters(cms, old(visited).deep_view(), *corpus) == Err::<
                    (Seq<EntryModel>, Seq<Seq<char>>),
                    _,
                >(e),
            },
        decreases n - i,
    {
        let ghost vb = visited.deep_view();
        proof {
            lemma_chapter_models(chapters@);
            assert(cms.skip(i as int)[0] == cms[i as int]);
            assert(cms[i as int] == chapter_model(chapters@[i as int]));
            assert(cms.skip(i as int).skip(1) =~= cms.skip(i + 1));
            assert(decreases_to!(parent@ => parent@.sub_items));
            assert(decreases_to!(parent@.sub_items => parent@.sub_items@));
            assert(decreases_to!(parent@.sub_items@ => parent@.sub_items@[i as int]));
        }
        match chapters[i].as_topic(visited, corpus) {
            Err(e) => {
                proof {
                    assert(topics_of_chapters(cms.skip(i as int), vb, *corpus) == Err::<
                        (Seq<EntryModel>, Seq<Seq<char>>),
                        _,
                    >(e@));
                }
                return Err(e);
            },
            Ok(mut ts) => {
                let ghost outseq0 = out@;
                let ghost tsseq0 = ts@;
                out.append(&mut ts);
                proof {
                    lemma_topic_models(out@);
                    lemma_topic_models(outseq0);
                    lemma_topic_models(tsseq0);
                    assert(out@ == outseq0 + tsseq0);
                    assert forall|t: int| 0 <= t < out@.len() implies topic_models(out@)[t] == (
                    topic_models(outseq0) + topic_models(tsseq0))[t] by {
                        if t < outseq0.len() {
                            assert(out@[t] == outseq0[t]);
                        } else {
                            assert(out@[t] == tsseq0[t - outseq0.len()]);
                        }
                    }
                    assert(topic_models(out@) =~= topic_models(outseq0) + topic_models(tsseq0));
                    let t0 = topic_models(tsseq0);
                    let o0 = topic_models(outseq0);
                    match topics_of_chapters(cms.skip(i + 1), visited.deep_view(), *corpus) {
                        Ok(pair2) => {
                            assert(topics_of_chapters(cms.skip(i as int), vb, *corpus) == Ok::<
                                _,
                                BuildIssue,
                            >((t0 + pair2.0, pair2.1)));
                            assert((o0 + t0) + pair2.0 =~= o0 + (t0 + pair2.0));
                        },
                        Err(e2) => {
                            assert(topics_of_chapters(cms.skip(i as int), vb, *corpus) == Err::<
                                (Seq<EntryModel>, Seq<Seq<char>>),
                                _,
                            >(e2));
                        },
                    }
                }
            },
        }
        i = i + 1;
    }
    proof {
        assert(cms.skip(n as int).len() == 0);
    }
    Ok(out)
}


/// The configuration understood by the renderer.
pub struct MdbookChmConfig {
    /// Locale code for the compiled file.
    pub language_code: String,
    /// File name for the result.
    pub output_path: String,
}

impl Default for MdbookChmConfig {
    /// United States English, written to `book.chm`.
    fn default() -> (r: Self)
        ensures
            r.language_code@ == "en-us"@,
            r.output_path@ == "book.chm"@,
    {
        MdbookChmConfig {
            language_code: String::from_str("en-us"),
            output_path: String::from_str("book.chm"),
        }
    }
}

/// The language a locale code selects; an unknown code falls back to the
/// default.
pub open spec fn spec_language_of(code: Seq<char>) -> ChmLanguage {
    match ChmLanguage::spec_from_code(lower_of(code)) {
        Some(l) => l,
        None => ChmLanguage::EnUs,
    }
}

/// The default topic after a list of topics was added: the first topic that
/// owns a file sets it, to its own page.
pub open spec fn default_fold(cur: Seq<char>, ts: Seq<EntryModel>) -> Seq<char>
    decreases ts,
{
    if ts.len() == 0 {
        cur
    } else {
        default_fold(
            if cur.len() == 0 && ts[0].files.len() > 0 {
                to_windows_spec(ts[0].files.last().path)
            } else {
                cur
            },
            ts.skip(1),
        )
    }
}

/// Peeling the last topic off the default-topic fold.
pub proof fn lemma_default_fold_snoc(cur: Seq<char>, ts: Seq<EntryModel>)
    requires
        ts.len() > 0,
    ensures
        default_fold(cur, ts) == (if default_fold(cur, ts.drop_last()).len() == 0
            && ts.last().files.len() > 0 {
            to_windows_spec(ts.last().files.last().path)
        } else {
            default_fold(cur, ts.drop_last())
        }),
    decreases ts,
{
    let step = if cur.len() == 0 && ts[0].files.len() > 0 {
        to_windows_spec(ts[0].files.last().path)
    } else {
        cur
    };
    assert(default_fold(cur, ts) == default_fold(step, ts.skip(1)));
    if ts.len() == 1 {
        assert(ts.drop_last() =~= Seq::<EntryModel>::empty());
        assert(ts.skip(1) =~= Seq::<EntryModel>::empty());
        assert(default_fold(step, ts.skip(1)) == step);
        assert(default_fold(cur, ts.drop_last()) == cur);
    } else {
        lemma_default_fold_snoc(step, ts.skip(1));
        assert(ts.skip(1).drop_last() =~= ts.drop_last().skip(1));
        assert(ts.skip(1).last() == ts.last());
        assert(ts.drop_last()[0] == ts[0]);
        assert(default_fold(cur, ts.drop_last()) == default_fold(step, ts.drop_last().skip(1)));
    }
}

/// The topics of a whole book: each chapter in order, each source file
/// contributing exactly one topic.
pub fn topics(chapters: &Vec<Chapter>, corpus: &Corpus) -> (r: Result<Vec<ChmTopicBuilder>, ChmError>)
    ensures
        match r {
            Ok(ts) => topics_of_chapters(
                chapter_models(chapters@),
                Seq::empty(),
                *corpus,
            ) matches Ok(pair) && pair.0 == topic_models(ts@),
            Err(e) => topics_of_chapters(chapter_models(chapters@), Seq::empty(), *corpus)
                == Err::<(Seq<EntryModel>, Seq<Seq<char>>), _>(e@),
        },
{
    let ghost cms = chapter_models(chapters@);
    let mut visited: Vec<String> = Vec::new();
    let mut out: Vec<ChmTopicBuilder> = Vec::new();
    let n = chapters.len();
    let mut i: usize = 0;
    proof {
        lemma_chapter_models(chapters@);
        lemma_topic_models(out@);
        assert(cms.skip(0) =~= cms);
        assert(visited.deep_view() =~= Seq::<Seq<char>>::empty());
        assert(topic_models(out@) =~= Seq::<EntryModel>::empty());
    }
    while i < n
        invariant
            i <= n,
            n == chapters@.len(),
            cms == chapter_models(chapters@),
            cms.len() == n,
            match topics_of_chapters(cms.skip(i as int), visited.deep_view(), *corpus) {
                Ok(pair) => topics_of_chapters(cms, Seq::empty(), *corpus) == Ok::<
                    _,
                    BuildIssue,
                >((topic_models(out@) + pair.0, pair.1)),
                Err(e) => topics_of_chapters(cms, Seq::empty(), *corpus) == Err::<
                    (Seq<EntryModel>, Seq<Seq<char>>),
                    _,
                >(e),
            },
        decreases n - i,
    {
        let ghost vb = visited.deep_view();
        proof {
            lemma_chapter_models(chapters@);
            assert(cms.skip(i as int)[0] == cms[i as int]);
            assert(cms[i as int] == chapter_model(chapters@[i as int]));
            assert(cms.skip(i as int).skip(1) =~= cms.skip(i + 1));
        }
        match chapters[i].as_topic(&mut visited, corpus) {
            Err(e) => {
                proof {
                    assert(topics_of_chapters(cms.skip(i as int), vb, *corpus) == Err::<
                        (Seq<EntryModel>, Seq<Seq<char>>),
                        _,
                    >(e@));
                }
                return Err(e);
            },
            Ok(mut ts) => {
                let ghost outseq0 = out@;
                let ghost tsseq0 = ts@;
                out.append(&mut ts);
                proof {
                    lemma_topic_models(out@);
                    lemma_topic_models(outseq0);
                    lemma_topic_models(tsseq0);
                    assert(out@ == outseq0 + tsseq0);
                    assert forall|t: int| 0 <= t < out@.len() implies topic_models(out@)[t] == (
                    topic_models(outseq0) + topic_models(tsseq0))[t] by {
                        if t < outseq0.len() {
                            assert(out@[t] == outseq0[t]);
                        } else {
                            assert(out@[t] == tsseq0[t - outseq0.len()]);
                        }
                    }
                    assert(topic_models(out@) =~= topic_models(outseq0) + topic_models(tsseq0));
                    let t0 = topic_models(tsseq0);
                    let o0 = topic_models(outseq0);
                    match topics_of_chapters(cms.skip(i + 1), visited.deep_view(), *corpus) {
                        Ok(pair2) => {
                            assert(topics_of_chapters(cms.skip(i as int), vb, *corpus) == Ok::<
                                _,
                                BuildIssue,
                            >((t0 + pair2.0, pair2.1)));
                            assert((o0 + t0) + pair2.0 =~= o0 + (t0 + pair2.0));
                        },
                        Err(e2) => {
                            assert(topics_of_chapters(cms.skip(i as int), vb, *corpus) == Err::<
                                (Seq<EntryModel>, Seq<Seq<char>>),
                                _,
                            >(e2));
                        },
                    }
                }
            },
        }
        i = i + 1;
    }
    proof {
        assert(cms.skip(n as int).len() == 0);
    }
    Ok(out)
}

/// Assemble the whole book as a help project: the language is looked up,
/// the output lands under the destination directory, and every chapter
/// becomes a topic.
pub fn as_chm(
    title: &str,
    config: &MdbookChmConfig,
    dest_dir: &str,
    chapters: &Vec<Chapter>,
    corpus: &Corpus,
) -> (r: Result<ChmBuilder, ChmError>)
    ensures
        match r {
            Ok(b) => {
                let out_path = join_spec(dest_dir@, config.output_path@);
                &&& topics_of_chapters(
                    chapter_models(chapters@),
                    Seq::empty(),
                    *corpus,
                ) matches Ok(pair) && b.contents@ == pair.0 && b.project.default_file@
                    == default_fold(Seq::empty(), pair.0)
                &&& b.project.title@ == title@
                &&& b.project.language == spec_language_of(config.language_code@)
                &&& b.project.output_path@ == to_windows_spec(
                    crate::utilities::with_extension_spec(out_path, "chm"@),
                )
                &&& b.project.contents_path@ == to_windows_spec(
                    join_spec(crate::builder::working_dir_spec(out_path), "contents.hhc"@),
                )
                &&& b.project.index_path@ == to_windows_spec(
                    join_spec(crate::builder::working_dir_spec(out_path), "index.hhk"@),
                )
                &&& b.project.files@.len() == 0
                &&& b.project_path@ == join_spec(
                    crate::builder::working_dir_spec(out_path),
                    "project.hpp"@,
                )
                &&& b.working_dir@ == crate::builder::working_dir_spec(out_path)
            },
            Err(e) => topics_of_chapters(chapter_models(chapters@), Seq::empty(), *corpus)
                == Err::<(Seq<EntryModel>, Seq<Seq<char>>), _>(e@),
        },
{
    let lang = match ChmLanguage::from_code(config.language_code.as_str()) {
        Some(l) => l,
        None => ChmLanguage::EnUs,
    };
    let output_path = join_path(dest_dir, config.output_path.as_str());
    let mut builder = ChmBuilder::new(title, lang, output_path.as_str());
    match topics(chapters, corpus) {
        Err(e) => Err(e),
        Ok(ts) => {
            let ghost tm = topic_models(ts@);
            let ghost p0 = builder.project;
            let ghost pp0 = builder.project_path@;
            let ghost wd0 = builder.working_dir@;
            let mut ts = ts;
            let ghost mut k: int = 0;
            proof {
                lemma_topic_models(ts@);
                assert(tm.take(0) =~= Seq::<EntryModel>::empty());
                assert(builder.contents@ =~= tm.take(0));
            }
            while ts.len() > 0
                invariant
                    0 <= k <= tm.len(),
                    topic_models(ts@) =~= tm.skip(k),
                    builder.contents@ =~= tm.take(k),
                    builder.project.default_file@ == default_fold(Seq::empty(), tm.take(k)),
                    builder.project.title == p0.title,
                    builder.project.language == p0.language,
                    builder.project.output_path == p0.output_path,
                    builder.project.index_path == p0.index_path,
                    builder.project.contents_path == p0.contents_path,
                    builder.project.files == p0.files,
                    builder.project_path@ == pp0,
                    builder.working_dir@ == wd0,
                decreases ts@.len(),
            {
                let ghost ts0 = ts@;
                proof {
                    lemma_topic_models(ts0);
                    assert(topic_models(ts0)[0] == ts0[0]@);
                    assert(tm.skip(k)[0] == tm[k]);
                }
                let t = ts.remove(0);
                let ghost df0 = builder.project.default_file@;
                builder.with_contents(t);
                proof {
                    assert(ts@ =~= ts0.skip(1));
                    lemma_topic_models(ts@);
                    assert forall|u: int| 0 <= u < ts@.len() implies topic_models(ts@)[u] == tm.skip(
                        k + 1,
                    )[u] by {
                        lemma_topic_models(ts0);
                        assert(ts@[u] == ts0[u + 1]);
                        assert(topic_models(ts0)[u + 1] == ts0[u + 1]@);
                        assert(tm.skip(k)[u + 1] == tm[k + 1 + u]);
                    }
                    assert(topic_models(ts@) =~= tm.skip(k + 1));
                    assert(t@ == tm[k]);
                    assert(builder.contents@ =~= tm.take(k).push(tm[k]));
                    assert(tm.take(k + 1) =~= tm.take(k).push(tm[k]));
                    lemma_default_fold_snoc(Seq::empty(), tm.take(k + 1));
                    assert(tm.take(k + 1).drop_last() =~= tm.take(k));
                    assert(tm.take(k + 1).last() == tm[k]);
                    k = k + 1;
                }
            }
            proof {
                assert(tm.skip(k).len() == 0);
                assert(tm.take(k) =~= tm);
            }
            Ok(builder)
        },
    }
}


/// `count_children` distributes over concatenation.
proof fn lemma_count_children_concat(a: Seq<EntryModel>, b: Seq<EntryModel>)
    ensures
        count_children(a + b) == count_children(a) + count_children(b),
    decreases a,
{
    if a.len() == 0 {
        assert(a + b =~= b);
    } else {
        lemma_count_children_concat(a.skip(1), b);
        assert((a + b).skip(1) =~= a.skip(1) + b);
        assert((a + b)[0] == a[0]);
    }
}

/// Building one chapter's topics keeps the visited sources distinct, keeps
/// the old ones as a prefix, and contributes exactly one topic node per
/// newly visited source.
pub proof fn lemma_topic_sources(ch: ChapterModel, visited: Seq<Seq<char>>, corpus: Corpus)
    requires
        visited.no_duplicates(),
    ensures
        topic_of_chapter(ch, visited, corpus) matches Ok(pair) ==> {
            &&& pair.1.no_duplicates()
            &&& visited.len() <= pair.1.len()
            &&& pair.1.take(visited.len() as int) == visited
            &&& count_children(pair.0) == pair.1.len() - visited.len()
        },
    decreases ch, 0int,
{
    match ch.source_path {
        None => {
            lemma_topics_sources(ch.sub_items, visited, corpus);
        },
        Some(p) => {
            if visited.contains(p) {
                match topic_of_chapter(ch, visited, corpus) {
                    Ok(pair) => {
                        assert(pair.1.take(visited.len() as int) =~= visited);
                        assert(count_children(pair.0) == 0);
                    },
                    Err(_) => {},
                }
            } else {
                let v2 = visited.push(p);
                assert(v2.no_duplicates()) by {
                    assert forall|i: int, j: int|
                        0 <= i < j < v2.len() implies v2[i] != v2[j] by {
                        if j == v2.len() - 1 {
                            assert(v2[i] == visited[i]);
                            assert(!visited.contains(p));
                        }
                    }
                }
                match add_file_spec(
                    chapter_source_spec(p),
                    encode_utf8(ch.content),
                    corpus,
                    DEPENDENCY_FUEL as nat,
                ) {
                    Err(_) => {},
                    Ok(fs) => {
                        lemma_topics_sources(ch.sub_items, v2, corpus);
                        match topics_of_chapters(ch.sub_items, v2, corpus) {
                            Err(_) => {},
                            Ok(kidpair) => {
                                let entry = EntryModel {
                                    title: ch.name,
                                    file: to_windows_spec(fs.last().path),
                                    children: kidpair.0,
                                    files: fs,
                                };
                                assert(count_children(seq![entry]) == node_count(entry)
                                    + count_children(Seq::<EntryModel>::empty())) by {
                                    assert(seq![entry].skip(1) =~= Seq::<EntryModel>::empty());
                                    assert(seq![entry][0] == entry);
                                }
                                assert(kidpair.1.take(visited.len() as int) =~= visited) by {
                                    assert(kidpair.1.take(v2.len() as int) == v2);
                                    assert forall|t: int|
                                        0 <= t < visited.len() implies kidpair.1.take(
                                        visited.len() as int,
                                    )[t] == visited[t] by {
                                        assert(kidpair.1[t] == kidpair.1.take(v2.len() as int)[t]);
                                        assert(v2[t] == visited[t]);
                                    }
                                }
                            },
                        }
                    },
                }
            }
        },
    }
}

/// Building a list of chapters' topics keeps the visited sources distinct,
/// keeps the old ones as a prefix, and contributes exactly one topic node
/// per newly visited source.
pub proof fn lemma_topics_sources(chs: Seq<ChapterModel>, visited: Seq<Seq<char>>, corpus: Corpus)
    requires
        visited.no_duplicates(),
    ensures
        topics_of_chapters(chs, visited, corpus) matches Ok(pair) ==> {
            &&& pair.1.no_duplicates()
            &&& visited.len() <= pair.1.len()
            &&& pair.1.take(visited.len() as int) == visited
            &&& count_children(pair.0) == pair.1.len() - visited.len()
        },
    decreases chs, 1int,
{
    if chs.len() == 0 {
        match topics_of_chapters(chs, visited, corpus) {
            Ok(pair) => {
                assert(pair.1.take(visited.len() as int) =~= visited);
            },
            Err(_) => {},
        }
    } else {
        lemma_topic_sources(chs[0], visited, corpus);
        match topic_of_chapter(chs[0], visited, corpus) {
            Err(_) => {},
            Ok(first) => {
                lemma_topics_sources(chs.skip(1), first.1, corpus);
                match topics_of_chapters(chs.skip(1), first.1, corpus) {
                    Err(_) => {},
                    Ok(rest) => {
                        lemma_count_children_concat(first.0, rest.0);
                        assert(rest.1.take(visited.len() as int) =~= visited) by {
                            assert(rest.1.take(first.1.len() as int) == first.1);
                            assert forall|t: int|
                                0 <= t < visited.len() implies rest.1.take(
                                visited.len() as int,
                            )[t] == visited[t] by {
                                assert(rest.1[t] == rest.1.take(first.1.len() as int)[t]);
                                assert(first.1[t] == first.1.take(visited.len() as int)[t]);
                            }
                        }
                    },
                }
            },
        }
    }
}

/// Each physical source file contributes exactly one topic: over a whole
/// book the visited source paths are distinct, and the number of topic
/// nodes built equals the number of sources visited; a source path standing
/// at two positions of the hierarchy therefore yields a single topic, the
/// later occurrence dropped.
pub proof fn lemma_each_source_once(chs: Seq<ChapterModel>, corpus: Corpus)
    ensures
        topics_of_chapters(chs, Seq::empty(), corpus) matches Ok(pair) ==> pair.1.no_duplicates()
            && count_children(pair.0) == pair.1.len(),
{
    assert(Seq::<Seq<char>>::empty().no_duplicates());
    lemma_topics_sources(chs, Seq::empty(), corpus);
}

} // verus!
