//! The contents file is an HTML file with the topic titles of the table of
//! contents.  Topics nest; flattening the tree gives the order in which the
//! project lists its files.

use crate::contents::Corpus;
use crate::contents::DEPENDENCY_FUEL;
use crate::contents::File;
use crate::contents::FileModel;
use crate::contents::IncludedFiles;
use crate::contents::add_file_spec;
use crate::contents::file_models;
use crate::error::BuildIssue;
use crate::error::ChmError;
use crate::utilities::to_windows_path;
use crate::utilities::to_windows_spec;
use crate::utilities::escape_html;
use crate::utilities::escape_spec;
use crate::utilities::join_lines;
use crate::utilities::lemma_join_lines_snoc;
use vstd::prelude::*;
use vstd::string::StringExecFns;

verus! {

/// The ghost shape of a topic: titles and paths as character sequences, the
/// children as a sequence of the same shape.
#[verifier::ext_equal]
pub ghost struct EntryModel {
    /// Escapable chapter title.
    pub title: Seq<char>,
    /// Path of the chapter's page.
    pub file: Seq<char>,
    /// Child topics.
    pub children: Seq<EntryModel>,
    /// The files owned by this topic.
    pub files: Seq<FileModel>,
}

/// A tree node of the table of contents.
pub struct ChmContentsEntry {
    /// The title of the chapter.
    pub title: String,
    /// The path to the chapter contents.
    pub file: String,
    /// Child topics.
    pub children: Vec<ChmContentsEntry>,
    /// All files included for this chapter (not for the children).
    pub files: Vec<File>,
}

/// The model of one tree node.
pub open spec fn entry_model(e: ChmContentsEntry) -> EntryModel
    decreases e,
{
    EntryModel {
        title: e.title@,
        file: e.file@,
        children: models_of(e.children@),
        files: file_models(e.files@),
    }
}

/// The models of a sequence of tree nodes.
pub open spec fn models_of(s: Seq<ChmContentsEntry>) -> Seq<EntryModel>
    decreases s,
{
    if s.len() == 0 {
        Seq::empty()
    } else {
        seq![entry_model(s[0])] + models_of(s.skip(1))
    }
}

/// Length and elementwise reading of `models_of`.
pub proof fn lemma_models_of(s: Seq<ChmContentsEntry>)
    ensures
        models_of(s).len() == s.len(),
        forall|i: int| 0 <= i < s.len() ==> models_of(s)[i] == entry_model(s[i]),
    decreases s,
{
    if s.len() > 0 {
        lemma_models_of(s.skip(1));
    }
}

/// `models_of` distributes over concatenation.
pub proof fn lemma_models_of_concat(a: Seq<ChmContentsEntry>, b: Seq<ChmContentsEntry>)
    ensures
        models_of(a + b) == models_of(a) + models_of(b),
    decreases a,
{
    if a.len() == 0 {
        assert(a + b =~= b);
        assert(models_of(a) + models_of(b) =~= models_of(b));
    } else {
        lemma_models_of_concat(a.skip(1), b);
        assert((a + b).skip(1) =~= a.skip(1) + b);
        assert(models_of(a) + models_of(b) =~= seq![entry_model((a + b)[0])] + (models_of(a.skip(1))
            + models_of(b)));
    }
}

impl View for ChmContentsEntry {
    type V = EntryModel;

    open spec fn view(&self) -> EntryModel {
        entry_model(*self)
    }
}

/// The tree of contents of the help project.
pub struct ChmContents(pub Vec<ChmContentsEntry>);

impl View for ChmContents {
    type V = Seq<EntryModel>;

    open spec fn view(&self) -> Seq<EntryModel> {
        models_of(self.0@)
    }
}

/// A node with its children stripped, as flattening emits it.
pub open spec fn strip_model(m: EntryModel) -> EntryModel {
    EntryModel { title: m.title, file: m.file, children: Seq::empty(), files: m.files }
}

/// How many nodes a tree holds.
pub open spec fn node_count(m: EntryModel) -> nat
    decreases m,
{
    1 + count_children(m.children)
}

/// How many nodes a forest holds.
pub open spec fn count_children(s: Seq<EntryModel>) -> nat
    decreases s,
{
    if s.len() == 0 {
        0
    } else {
        node_count(s[0]) + count_children(s.skip(1))
    }
}

/// The flattening of a tree: every child's flattening first, the node itself
/// last, stripped of its children.
pub open spec fn flatten_model(m: EntryModel) -> Seq<EntryModel>
    decreases m,
{
    flatten_children(m.children) + seq![strip_model(m)]
}

/// The flattening of a forest, in order.
pub open spec fn flatten_children(s: Seq<EntryModel>) -> Seq<EntryModel>
    decreases s,
{
    if s.len() == 0 {
        Seq::empty()
    } else {
        flatten_model(s[0]) + flatten_children(s.skip(1))
    }
}

/// Peeling the last tree off a flattened forest.
pub proof fn lemma_flatten_children_snoc(s: Seq<EntryModel>)
    requires
        s.len() > 0,
    ensures
        flatten_children(s) == flatten_children(s.drop_last()) + flatten_model(s.last()),
    decreases s.len(),
{
    if s.len() == 1 {
        assert(s.skip(1) =~= Seq::<EntryModel>::empty());
        assert(s.drop_last() =~= Seq::<EntryModel>::empty());
        assert(flatten_children(s.drop_last()) + flatten_model(s.last()) =~= flatten_model(s[0])
            + flatten_children(s.skip(1)));
    } else {
        lemma_flatten_children_snoc(s.skip(1));
        assert(s.skip(1).drop_last() =~= s.drop_last().skip(1));
        assert(s.skip(1).last() == s.last());
        assert(flatten_children(s.drop_last()) + flatten_model(s.last()) =~= flatten_model(s[0])
            + flatten_children(s.skip(1)));
    }
}

proof fn lemma_flatten_len(m: EntryModel)
    ensures
        flatten_model(m).len() == node_count(m),
    decreases m,
{
    lemma_flatten_children_len(m.children);
}

proof fn lemma_flatten_children_len(s: Seq<EntryModel>)
    ensures
        flatten_children(s).len() == count_children(s),
    decreases s,
{
    if s.len() > 0 {
        lemma_flatten_len(s[0]);
        lemma_flatten_children_len(s.skip(1));
    }
}

/// Flattening a tree of `N` nodes yields exactly `N` entries, and every
/// node's descendants precede it: the result is the concatenation of the
/// children's flattenings, in order, followed by the node itself.
pub proof fn lemma_flatten_structure(m: EntryModel)
    ensures
        flatten_model(m).len() == node_count(m),
        node_count(m) >= 1,
        flatten_model(m).last() == strip_model(m),
        flatten_model(m).drop_last() == flatten_children(m.children),
{
    lemma_flatten_len(m);
    assert(flatten_model(m).drop_last() =~= flatten_children(m.children));
}

/// The four fixed sitemap lines of one entry, each value escaped.
pub open spec fn entry_head(m: EntryModel, tabs: Seq<char>) -> Seq<char> {
    tabs + "<LI><OBJECT type=\"text/sitemap\">\n"@ + tabs + "\t<param name=\"Name\" value=\""@
        + escape_spec(m.title) + "\">\n"@ + tabs + "\t<param name=\"Local\" value=\""@
        + escape_spec(m.file) + "\">\n"@ + tabs + "</OBJECT>"@
}

/// The sitemap text of one entry: its own lines, then its children indented
/// one step further inside an `<UL>` block.
pub open spec fn format_model(m: EntryModel, tabs: Seq<char>) -> Seq<char>
    decreases m,
{
    if m.children.len() == 0 {
        entry_head(m, tabs)
    } else {
        entry_head(m, tabs) + "\n"@ + tabs + "<UL>\n"@ + join_lines(
            child_lines(m.children, tabs + "\t"@),
            "\n"@,
        ) + "\n"@ + tabs + "</UL>"@
    }
}

/// The sitemap texts of a forest, one part per tree.
pub open spec fn child_lines(s: Seq<EntryModel>, tabs: Seq<char>) -> Seq<Seq<char>>
    decreases s,
{
    if s.len() == 0 {
        Seq::empty()
    } else {
        seq![format_model(s[0], tabs)] + child_lines(s.skip(1), tabs)
    }
}

/// Length and elementwise reading of `child_lines`.
pub proof fn lemma_child_lines(s: Seq<EntryModel>, tabs: Seq<char>)
    ensures
        child_lines(s, tabs).len() == s.len(),
        forall|i: int| 0 <= i < s.len() ==> child_lines(s, tabs)[i] == format_model(s[i], tabs),
    decreases s,
{
    if s.len() > 0 {
        lemma_child_lines(s.skip(1), tabs);
    }
}

impl ChmContentsEntry {
    /// Render this entry and its children as sitemap text, every line
    /// prefixed by `tabs` (children get one more tab).
    pub fn format(&self, tabs: &str) -> (r: String)
        ensures
            r@ == format_model(self@, tabs@),
        decreases *self,
    {
        let mut out = String::new();
        out.append(tabs);
        out.append("<LI><OBJECT type=\"text/sitemap\">\n");
        out.append(tabs);
        out.append("\t<param name=\"Name\" value=\"");
        let t = escape_html(self.title.as_str());
        out.append(t.as_str());
        out.append("\">\n");
        out.append(tabs);
        out.append("\t<param name=\"Local\" value=\"");
        let f = escape_html(self.file.as_str());
        out.append(f.as_str());
        out.append("\">\n");
        out.append(tabs);
        out.append("</OBJECT>");
        proof {
            assert(out@ == entry_head(self@, tabs@));
        }
        let n = self.children.len();
        if n > 0 {
            out.append("\n");
            out.append(tabs);
            out.append("<UL>\n");
            let mut sub = String::from_str(tabs);
            sub.append("\t");
            let ghost cm = self@.children;
            proof {
                lemma_models_of(self.children@);
                assert(child_lines(cm.take(0), sub@) =~= Seq::<Seq<char>>::empty());
            }
            let mut i: usize = 0;
            while i < n
                invariant
                    i <= n,
                    n == self.children.len(),
                    cm == self@.children,
                    cm.len() == n,
                    sub@ == tabs@ + "\t"@,
                    out@ == entry_head(self@, tabs@) + "\n"@ + tabs@ + "<UL>\n"@ + join_lines(
                        child_lines(cm.take(i as int), sub@),
                        "\n"@,
                    ),
                decreases n - i,
            {
                if i > 0 {
                    out.append("\n");
                }
                proof {
                    assert(decreases_to!(self => self.children));
                    assert(decreases_to!(self.children => self.children@));
                    assert(decreases_to!(self.children@ => self.children@[i as int]));
                }
                let part = self.children[i].format(sub.as_str());
                out.append(part.as_str());
                proof {
                    lemma_models_of(self.children@);
                    lemma_child_lines(cm.take(i + 1), sub@);
                    lemma_child_lines(cm.take(i as int), sub@);
                    let all = child_lines(cm.take(i + 1), sub@);
                    assert(all.drop_last() =~= child_lines(cm.take(i as int), sub@));
                    assert(all.last() == format_model(cm[i as int], sub@));
                    if i > 0 {
                        lemma_join_lines_snoc(all, "\n"@);
                    } else {
                        assert(join_lines(all, "\n"@) == all[0]);
                    }
                }
                i = i + 1;
            }
            out.append("\n");
            out.append(tabs);
            out.append("</UL>");
            proof {
                assert(cm.take(n as int) =~= cm);
            }
        }
        out
    }

    /// Flattens the tree into a list of entries, children before parents.
    pub fn flatten(self) -> (r: Vec<ChmContentsEntry>)
        ensures
            models_of(r@) == flatten_model(self@),
        decreases self,
    {
        let ghost s0 = self;
        let ChmContentsEntry { title, file, children, files } = self;
        let mut children = children;
        let mut result: Vec<ChmContentsEntry> = Vec::new();
        let ghost m = entry_model(s0);
        let ghost mut k: int = 0;
        proof {
            lemma_models_of(s0.children@);
            assert(children@ =~= s0.children@.skip(0));
            assert(models_of(result@) =~= flatten_children(m.children.take(0)));
        }
        while children.len() > 0
            invariant
                s0 == self,
                0 <= k <= m.children.len(),
                m == entry_model(s0),
                m.children.len() == s0.children@.len(),
                children@ =~= s0.children@.skip(k),
                models_of(result@) =~= flatten_children(m.children.take(k)),
            decreases children@.len(),
        {
            let c = children.remove(0);
            proof {
                assert(c == s0.children@[k]);
                assert(decreases_to!(s0 => s0.children));
                assert(decreases_to!(s0.children => s0.children@));
                assert(decreases_to!(s0.children@ => s0.children@[k]));
                assert(decreases_to!(s0 => c));
            }
            let mut part = c.flatten();
            let ghost before = result@;
            let ghost p0 = part@;
            result.append(&mut part);
            proof {
                lemma_models_of(s0.children@);
                assert(entry_model(c) == m.children[k]);
                lemma_flatten_children_snoc(m.children.take(k + 1));
                assert(m.children.take(k + 1).drop_last() =~= m.children.take(k));
                assert(m.children.take(k + 1).last() == m.children[k]);
                lemma_models_of_concat(before, p0);
                assert(before + p0 == result@);
                assert(children@ =~= s0.children@.skip(k + 1));
                k = k + 1;
            }
        }
        proof {
            assert(m.children.take(k) =~= m.children);
        }
        let last = ChmContentsEntry { title, file, children: Vec::new(), files };
        proof {
            assert(entry_model(last) =~= strip_model(m)) by {
                assert(models_of(last.children@) =~= Seq::<EntryModel>::empty());
            }
        }
        let ghost before_last = result@;
        result.push(last);
        proof {
            assert(result@ =~= before_last + seq![last]);
            lemma_models_of_concat(before_last, seq![last]);
            assert(models_of(seq![last]) =~= seq![entry_model(last)]) by {
                assert(seq![last].skip(1) =~= Seq::<ChmContentsEntry>::empty());
            }
            assert(models_of(result@) =~= flatten_children(m.children) + seq![strip_model(m)]);
        }
        result
    }
}

impl ChmContents {
    /// The fixed header of the contents file.
    pub open spec fn spec_header() -> Seq<char> {
        "<!DOCTYPE HTML PUBLIC \"-//IETF//DTD HTML//EN\"><HTML><HEAD><meta name=\"GENERATOR\" content=\"@rscarson&reg; mdbook-chm\"><!-- Sitemap 1.0 --></HEAD><BODY><OBJECT type=\"text/site properties\">    <param name=\"Type\" value=\" \">    <param name=\"TypeDesc\" value=\" \">    <param name=\"Window Styles\" value=\"0x800025\"></OBJECT>"@
    }

    /// The full text of the contents file.
    pub open spec fn spec_text(self) -> Seq<char> {
        ChmContents::spec_header() + "\n<UL>\n"@ + join_lines(
            child_lines(models_of(self.0@), "\t"@),
            "\n"@,
        ) + "\n</UL>\n</BODY></HTML>"@
    }

    /// Render the contents file in its exact schema.
    pub fn to_text(&self) -> (r: String)
        ensures
            r@ == self.spec_text(),
    {
        let mut out = String::new();
        out.append(
            "<!DOCTYPE HTML PUBLIC \"-//IETF//DTD HTML//EN\"><HTML><HEAD><meta name=\"GENERATOR\" content=\"@rscarson&reg; mdbook-chm\"><!-- Sitemap 1.0 --></HEAD><BODY><OBJECT type=\"text/site properties\">    <param name=\"Type\" value=\" \">    <param name=\"TypeDesc\" value=\" \">    <param name=\"Window Styles\" value=\"0x800025\"></OBJECT>",
        );
        out.append("\n<UL>\n");
        let ghost cm = models_of(self.0@);
        let n = self.0.len();
        proof {
            lemma_models_of(self.0@);
            assert(child_lines(cm.take(0), "\t"@) =~= Seq::<Seq<char>>::empty());
        }
        let mut i: usize = 0;
        while i < n
            invariant
                i <= n,
                n == self.0.len(),
                cm == models_of(self.0@),
                cm.len() == n,
                out@ == ChmContents::spec_header() + "\n<UL>\n"@ + join_lines(
                    child_lines(cm.take(i as int), "\t"@),
                    "\n"@,
                ),
            decreases n - i,
        {
            if i > 0 {
                out.append("\n");
            }
            let part = self.0[i].format("\t");
            out.append(part.as_str());
            proof {
                lemma_models_of(self.0@);
                lemma_child_lines(cm.take(i + 1), "\t"@);
                lemma_child_lines(cm.take(i as int), "\t"@);
                let all = child_lines(cm.take(i + 1), "\t"@);
                assert(all.drop_last() =~= child_lines(cm.take(i as int), "\t"@));
                assert(all.last() == format_model(cm[i as int], "\t"@));
                if i > 0 {
                    lemma_join_lines_snoc(all, "\n"@);
                } else {
                    assert(join_lines(all, "\n"@) == all[0]);
                }
            }
            i = i + 1;
        }
        out.append("\n</UL>\n</BODY></HTML>");
        proof {
            assert(cm.take(n as int) =~= cm);
        }
        out
    }

    /// Flattens the whole table of contents, children before parents.
    pub fn flatten(self) -> (r: Vec<ChmContentsEntry>)
        ensures
            models_of(r@) == flatten_children(self@),
    {
        let ghost s0 = self;
        let ChmContents(entries) = self;
        let mut entries = entries;
        let mut result: Vec<ChmContentsEntry> = Vec::new();
        let ghost m = models_of(s0.0@);
        let ghost mut k: int = 0;
        proof {
            lemma_models_of(s0.0@);
            assert(entries@ =~= s0.0@.skip(0));
            assert(models_of(result@) =~= flatten_children(m.take(0)));
        }
        while entries.len() > 0
            invariant
                0 <= k <= m.len(),
                m == models_of(s0.0@),
                m.len() == s0.0@.len(),
                entries@ =~= s0.0@.skip(k),
                models_of(result@) =~= flatten_children(m.take(k)),
            decreases entries@.len(),
        {
            let c = entries.remove(0);
            proof {
                assert(c == s0.0@[k]);
            }
            let mut part = c.flatten();
            let ghost before = result@;
            let ghost p0 = part@;
            result.append(&mut part);
            proof {
                lemma_models_of(s0.0@);
                assert(entry_model(c) == m[k]);
                lemma_flatten_children_snoc(m.take(k + 1));
                assert(m.take(k + 1).drop_last() =~= m.take(k));
                assert(m.take(k + 1).last() == m[k]);
                lemma_models_of_concat(before, p0);
                assert(before + p0 == result@);
                assert(entries@ =~= s0.0@.skip(k + 1));
                k = k + 1;
            }
        }
        proof {
            assert(m.take(k) =~= m);
        }
        result
    }
}


impl Clone for ChmContentsEntry {
    /// A copy with the same model.
    fn clone(&self) -> (r: Self)
        ensures
            r@ == (*self)@,
        decreases *self,
    {
        let mut kids: Vec<ChmContentsEntry> = Vec::new();
        let n = self.children.len();
        let mut i: usize = 0;
        while i < n
            invariant
                i <= n,
                n == self.children.len(),
                kids@.len() == i,
                forall|t: int|
                    0 <= t < i ==> entry_model(#[trigger] kids@[t]) == entry_model(
                        self.children@[t],
                    ),
            decreases n - i,
        {
            proof {
                assert(decreases_to!(self => self.children));
                assert(decreases_to!(self.children => self.children@));
                assert(decreases_to!(self.children@ => self.children@[i as int]));
            }
            let c = self.children[i].clone();
            kids.push(c);
            i = i + 1;
        }
        let mut fls: Vec<File> = Vec::new();
        let m = self.files.len();
        let mut j: usize = 0;
        while j < m
            invariant
                j <= m,
                m == self.files.len(),
                fls@.len() == j,
                forall|t: int| 0 <= t < j ==> (#[trigger] fls@[t])@ == self.files@[t]@,
            decreases m - j,
        {
            let f = self.files[j].clone();
            fls.push(f);
            j = j + 1;
        }
        let r = ChmContentsEntry {
            title: self.title.clone(),
            file: self.file.clone(),
            children: kids,
            files: fls,
        };
        proof {
            lemma_models_of(r.children@);
            lemma_models_of(self.children@);
            assert(models_of(r.children@) =~= models_of(self.children@));
            assert(file_models(r.files@) =~= file_models(self.files@));
            assert(entry_model(r) =~= entry_model(*self));
        }
        r
    }
}

impl Clone for ChmContents {
    /// A copy with the same model.
    fn clone(&self) -> (r: Self)
        ensures
            r@ == (*self)@,
    {
        let mut entries: Vec<ChmContentsEntry> = Vec::new();
        let n = self.0.len();
        let mut i: usize = 0;
        while i < n
            invariant
                i <= n,
                n == self.0.len(),
                entries@.len() == i,
                forall|t: int|
                    0 <= t < i ==> entry_model(#[trigger] entries@[t]) == entry_model(self.0@[t]),
            decreases n - i,
        {
            let c = self.0[i].clone();
            entries.push(c);
            i = i + 1;
        }
        let r = ChmContents(entries);
        proof {
            lemma_models_of(r.0@);
            lemma_models_of(self.0@);
            assert(models_of(r.0@) =~= models_of(self.0@));
        }
        r
    }
}

impl ChmContentsEntry {
    /// Build an entry from one source document: the document is processed,
    /// with its dependencies drawn from the corpus, and the rendered page
    /// becomes the entry's target, in backslash form.
    pub fn with_contents(title: &str, source: &str, contents: Vec<u8>, corpus: &Corpus) -> (r:
        Result<ChmContentsEntry, ChmError>)
        ensures
            match r {
                Ok(e) => add_file_spec(
                    source@,
                    contents@,
                    *corpus,
                    DEPENDENCY_FUEL as nat,
                ) matches Ok(fs) && fs.len() >= 1 && e@ == (EntryModel {
                    title: title@,
                    file: to_windows_spec(fs.last().path),
                    children: Seq::empty(),
                    files: fs,
                }),
                Err(e) => add_file_spec(source@, contents@, *corpus, DEPENDENCY_FUEL as nat)
                    == Err::<Seq<FileModel>, _>(e@),
            },
    {
        let mut files = IncludedFiles::new();
        match files.add_file(source, contents, corpus, DEPENDENCY_FUEL) {
            Err(e) => Err(e),
            Ok(_) => {
                proof {
                    crate::contents::lemma_add_file_spec_nonempty(
                        source@,
                        contents@,
                        *corpus,
                        DEPENDENCY_FUEL as nat,
                    );
                    assert(file_models(files.files@) =~= file_models(
                        Seq::<File>::empty(),
                    ) + file_models(files.files@));
                }
                let n = files.files.len();
                let own_path = to_windows_path(files.files[n - 1].path.as_str());
                let e = ChmContentsEntry {
                    title: String::from_str(title),
                    file: own_path,
                    children: Vec::new(),
                    files: files.files,
                };
                proof {
                    lemma_models_of(e.children@);
                    assert(models_of(e.children@) =~= Seq::<EntryModel>::empty());
                    assert(file_models(e.files@).last() == e.files@[n - 1]@);
                }
                Ok(e)
            },
        }
    }
}

} // verus!
