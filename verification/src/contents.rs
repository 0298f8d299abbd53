//! The files carried by a help project: each one a target path and the bytes
//! to write there.

use crate::error::BuildIssue;
use crate::error::ChmError;
use crate::utilities::extension_of;
use crate::utilities::extension_spec;
use crate::utilities::str_eq;
use vstd::prelude::*;
use vstd::string::StringExecFns;
use vstd::utf8::decode_utf8;
use vstd::utf8::encode_utf8;
use vstd::utf8::encode_utf8_decode_utf8;
use vstd::utf8::valid_utf8;

verus! {

/// The ghost shape of a file: its path and contents.
#[verifier::ext_equal]
pub ghost struct FileModel {
    /// Target path.
    pub path: Seq<char>,
    /// Raw contents.
    pub contents: Seq<u8>,
}

/// A file included in the help project.
pub struct File {
    /// Target path after writing.
    pub path: String,
    /// File contents.
    pub contents: Vec<u8>,
}

impl View for File {
    type V = FileModel;

    open spec fn view(&self) -> FileModel {
        FileModel { path: self.path@, contents: self.contents@ }
    }
}

impl Clone for File {
    /// A copy with the same path and contents.
    fn clone(&self) -> (r: Self)
        ensures
            r@ == self@,
    {
        let r = File { path: self.path.clone(), contents: clone_bytes(&self.contents) };
        proof {
            assert(r@ =~= self@);
        }
        r
    }
}

/// Relies on `std::str::from_utf8`: it succeeds exactly on valid UTF-8, and
/// re-encoding what it decoded gives the input bytes back.
#[verifier::external_body]
pub(crate) fn bytes_to_string(b: &Vec<u8>) -> (r: Option<String>)
    ensures
        r is Some <==> valid_utf8(b@),
        r is Some ==> encode_utf8(r.unwrap()@) == b@,
{
    match std::str::from_utf8(b.as_slice()) {
        Ok(s) => Some(s.to_string()),
        Err(_) => None,
    }
}

impl File {
    /// Whether the file's path carries the rendered-page extension.
    pub open spec fn spec_is_html(self) -> bool {
        extension_spec(self.path@) == Some("html"@)
    }

    /// Returns true if this file is an HTML document.
    pub fn is_html(&self) -> (r: bool)
        ensures
            r == self.spec_is_html(),
    {
        match extension_of(self.path.as_str()) {
            Some(e) => str_eq(e.as_str(), "html"),
            None => false,
        }
    }

    /// The contents as text, for HTML documents that hold valid UTF-8.
    pub fn str_contents(&self) -> (r: Option<String>)
        ensures
            r is Some <==> self.spec_is_html() && valid_utf8(self.contents@),
            r is Some ==> encode_utf8(r.unwrap()@) == self.contents@,
    {
        if self.is_html() {
            bytes_to_string(&self.contents)
        } else {
            None
        }
    }
}

/// The source files handed to one build, keyed by path.  The build itself
/// never touches the disk: the caller reads files and supplies them here,
/// and a path the corpus lacks fails the build with that path.
pub struct Corpus {
    /// Path and contents pairs; the earliest entry for a path wins.
    pub entries: Vec<(String, Vec<u8>)>,
}

/// The bytes stored for `path`, taking the earliest entry.
pub open spec fn corpus_lookup(entries: Seq<(String, Vec<u8>)>, path: Seq<char>) -> Option<Seq<u8>>
    decreases entries,
{
    if entries.len() == 0 {
        None
    } else if entries[0].0@ == path {
        Some(entries[0].1@)
    } else {
        corpus_lookup(entries.skip(1), path)
    }
}

impl Corpus {
    /// The bytes stored for `path`.
    pub open spec fn spec_get(self, path: Seq<char>) -> Option<Seq<u8>> {
        corpus_lookup(self.entries@, path)
    }

    /// An empty corpus.
    pub fn new() -> (r: Self)
        ensures
            r.entries@.len() == 0,
    {
        Corpus { entries: Vec::new() }
    }

    /// Add a file; an already-present path keeps its earlier contents.
    pub fn insert(&mut self, path: String, bytes: Vec<u8>)
        ensures
            final(self).entries@ == old(self).entries@.push((path, bytes)),
    {
        self.entries.push((path, bytes));
    }

    /// Look a path up.
    pub fn get(&self, path: &str) -> (r: Option<&Vec<u8>>)
        ensures
            match r {
                Some(b) => self.spec_get(path@) == Some(b@),
                None => self.spec_get(path@) is None,
            },
    {
        let n = self.entries.len();
        let mut i: usize = 0;
        proof {
            assert(self.entries@.skip(0) =~= self.entries@);
        }
        while i < n
            invariant
                i <= n,
                n == self.entries@.len(),
                corpus_lookup(self.entries@, path@) == corpus_lookup(
                    self.entries@.skip(i as int),
                    path@,
                ),
            decreases n - i,
        {
            if str_eq(self.entries[i].0.as_str(), path) {
                proof {
                    assert(self.entries@.skip(i as int)[0] == self.entries@[i as int]);
                }
                return Some(&self.entries[i].1);
            }
            proof {
                assert(self.entries@.skip(i as int)[0] == self.entries@[i as int]);
                assert(self.entries@.skip(i as int).skip(1) =~= self.entries@.skip(i + 1));
            }
            i = i + 1;
        }
        proof {
            assert(self.entries@.skip(n as int).len() == 0);
        }
        None
    }
}

/// All the files pulled in while processing documents.  The last one is
/// always the document that started the processing.
pub struct IncludedFiles {
    /// The list of files found.
    pub files: Vec<File>,
}

/// The models of a list of files.
pub open spec fn file_models(s: Seq<File>) -> Seq<FileModel> {
    s.map_values(|f: File| f@)
}

impl IncludedFiles {
    /// Creates a new, empty file set.
    pub fn new() -> (r: Self)
        ensures
            r.files@.len() == 0,
    {
        IncludedFiles { files: Vec::new() }
    }

    /// Moves every file of `other` to the end of this set.
    pub fn append(&mut self, other: Self)
        ensures
            final(self).files@ == old(self).files@ + other.files@,
    {
        let mut o = other;
        self.files.append(&mut o.files);
    }
}

impl Default for IncludedFiles {
    /// An empty file set.
    fn default() -> (r: Self)
        ensures
            r.files@.len() == 0,
    {
        IncludedFiles::new()
    }
}


/// How deep dependency processing may recurse before the build fails; a
/// guard against dependency cycles.
pub const DEPENDENCY_FUEL: u64 = 64;

/// The files one document contributes: a markdown document is rendered and
/// preceded by what its dependencies contribute in turn; any other file is
/// stored as it is.
pub open spec fn add_file_spec(
    path: Seq<char>,
    contents: Seq<u8>,
    corpus: Corpus,
    fuel: nat,
) -> Result<Seq<FileModel>, BuildIssue>
    decreases fuel, 1int, 0int,
{
    if extension_spec(path) == Some("md"@) {
        if !valid_utf8(contents) {
            Err(BuildIssue::InvalidText(path))
        } else {
            match crate::markdown::load_spec(path, decode_utf8(contents), corpus) {
                Err(issue) => Err(issue),
                Ok(res) => match add_deps_spec(res.1, corpus, fuel) {
                    Err(issue) => Err(issue),
                    Ok(files) => Ok(files + seq![res.0]),
                },
            }
        }
    } else {
        Ok(seq![FileModel { path: path, contents: contents }])
    }
}

/// The files a list of dependencies contributes, in order; a missing one
/// fails the build, and exhausted fuel reports a cycle.
pub open spec fn add_deps_spec(deps: Seq<Seq<char>>, corpus: Corpus, fuel: nat) -> Result<
    Seq<FileModel>,
    BuildIssue,
>
    decreases fuel, 0int, deps.len(),
{
    if deps.len() == 0 {
        Ok(Seq::empty())
    } else {
        match corpus.spec_get(deps[0]) {
            None => Err(BuildIssue::MissingFile(deps[0])),
            Some(bytes) => if fuel == 0 {
                Err(BuildIssue::DependencyCycle(deps[0]))
            } else {
                match add_file_spec(deps[0], bytes, corpus, (fuel - 1) as nat) {
                    Err(issue) => Err(issue),
                    Ok(fs) => match add_deps_spec(deps.skip(1), corpus, fuel) {
                        Err(issue) => Err(issue),
                        Ok(rest) => Ok(fs + rest),
                    },
                }
            },
        }
    }
}

/// A successful processing always contributes at least the document itself.
pub proof fn lemma_add_file_spec_nonempty(
    path: Seq<char>,
    contents: Seq<u8>,
    corpus: Corpus,
    fuel: nat,
)
    ensures
        add_file_spec(path, contents, corpus, fuel) matches Ok(fs) ==> fs.len() >= 1,
{
}

/// A byte vector copied value for value.
pub(crate) fn clone_bytes(b: &Vec<u8>) -> (r: Vec<u8>)
    ensures
        r@ == b@,
{
    let c = b.clone();
    proof {
        assert(c@ =~= b@);
    }
    c
}

/// One document processed into the files it contributes, dependencies
/// first, the document's own file last.
fn process_file(path: &str, contents: Vec<u8>, corpus: &Corpus, fuel: u64) -> (r: Result<
    Vec<File>,
    ChmError,
>)
    ensures
        match r {
            Ok(files) => add_file_spec(path@, contents@, *corpus, fuel as nat) == Ok::<
                _,
                BuildIssue,
            >(file_models(files@)),
            Err(e) => add_file_spec(path@, contents@, *corpus, fuel as nat) == Err::<
                Seq<FileModel>,
                _,
            >(e@),
        },
    decreases fuel,
{
    let ghost c0 = contents@;
    let is_md = match extension_of(path) {
        Some(e) => str_eq(e.as_str(), "md"),
        None => false,
    };
    if !is_md {
        let mut v: Vec<File> = Vec::new();
        v.push(File { path: String::from_str(path), contents });
        proof {
            assert(file_models(v@) =~= seq![FileModel { path: path@, contents: c0 }]);
        }
        return Ok(v);
    }
    match bytes_to_string(&contents) {
        None => Err(ChmError::InvalidText(String::from_str(path))),
        Some(text) => {
            proof {
                encode_utf8_decode_utf8(text@);
                assert(decode_utf8(contents@) == text@);
            }
            match crate::markdown::load(path, text.as_str(), corpus) {
                Err(e) => Err(e),
                Ok(own_and_deps) => {
                    let (own, deps) = own_and_deps;
                    let ghost own_model = own@;
                    let ghost dv = deps.deep_view();
                    let mut acc: Vec<File> = Vec::new();
                    let n = deps.len();
                    let mut i: usize = 0;
                    proof {
                        assert(dv.skip(0) =~= dv);
                        assert(file_models(acc@) =~= Seq::<FileModel>::empty());
                        match add_deps_spec(dv, *corpus, fuel as nat) {
                            Ok(rest) => {
                                assert(file_models(acc@) + rest =~= rest);
                            },
                            Err(_) => {},
                        }
                    }
                    while i < n
                        invariant
                            i <= n,
                            n == deps@.len(),
                            dv == deps.deep_view(),
                            extension_spec(path@) == Some("md"@),
                            valid_utf8(contents@),
                            own_model == own@,
                            crate::markdown::load_spec(path@, decode_utf8(contents@), *corpus)
                                == Ok::<(FileModel, Seq<Seq<char>>), BuildIssue>((own_model, dv)),
                            match add_deps_spec(dv.skip(i as int), *corpus, fuel as nat) {
                                Ok(rest) => add_deps_spec(dv, *corpus, fuel as nat) == Ok::<
                                    _,
                                    BuildIssue,
                                >(file_models(acc@) + rest),
                                Err(e) => add_deps_spec(dv, *corpus, fuel as nat) == Err::<
                                    Seq<FileModel>,
                                    _,
                                >(e),
                            },
                        decreases n - i,
                    {
                        proof {
                            assert(dv.skip(i as int)[0] == dv[i as int]);
                            assert(dv[i as int] == deps@[i as int]@);
                            assert(dv.skip(i as int).skip(1) =~= dv.skip(i + 1));
                        }
                        match corpus.get(deps[i].as_str()) {
                            None => {
                                return Err(ChmError::MissingFile(deps[i].clone()));
                            },
                            Some(bytes) => {
                                if fuel == 0 {
                                    return Err(ChmError::DependencyCycle(deps[i].clone()));
                                }
                                let b = clone_bytes(bytes);
                                match process_file(deps[i].as_str(), b, corpus, fuel - 1) {
                                    Err(e) => {
                                        return Err(e);
                                    },
                                    Ok(mut fs) => {
                                        let ghost fs0 = fs@;
                                        let ghost acc0 = acc@;
                                        acc.append(&mut fs);
                                        proof {
                                            assert(acc@ == acc0 + fs0);
                                            assert(file_models(acc@) =~= file_models(acc0)
                                                + file_models(fs0));
                                            match add_deps_spec(
                                                dv.skip(i + 1),
                                                *corpus,
                                                fuel as nat,
                                            ) {
                                                Ok(rest) => {
                                                    assert(file_models(acc0) + (file_models(fs0)
                                                        + rest) =~= file_models(acc@) + rest);
                                                },
                                                Err(_) => {},
                                            }
                                        }
                                    },
                                }
                            },
                        }
                        i = i + 1;
                    }
                    proof {
                        assert(dv.skip(n as int).len() == 0);
                    }
                    let ghost accn = acc@;
                    acc.push(own);
                    proof {
                        assert(acc@ == accn.push(own));
                        assert(file_models(acc@) =~= file_models(accn) + seq![own_model]);
                    }
                    Ok(acc)
                },
            }
        },
    }
}

impl IncludedFiles {
    /// Process one file and append what it contributes: a markdown document
    /// is rendered, with its dependencies drawn from the corpus and
    /// processed in turn; any other file is stored as it is.  `fuel` bounds
    /// the dependency depth.
    pub fn add_file(&mut self, path: &str, contents: Vec<u8>, corpus: &Corpus, fuel: u64) -> (r:
        Result<(), ChmError>)
        ensures
            match r {
                Ok(_) => add_file_spec(path@, contents@, *corpus, fuel as nat) matches Ok(fs)
                    && file_models(final(self).files@) == file_models(old(self).files@) + fs,
                Err(e) => add_file_spec(path@, contents@, *corpus, fuel as nat) == Err::<
                    Seq<FileModel>,
                    _,
                >(e@) && *final(self) == *old(self),
            },
    {
        match process_file(path, contents, corpus, fuel) {
            Err(e) => Err(e),
            Ok(mut fs) => {
                let ghost fs0 = fs@;
                let ghost own0 = self.files@;
                self.files.append(&mut fs);
                proof {
                    assert(self.files@ == own0 + fs0);
                    assert(file_models(self.files@) =~= file_models(own0) + file_models(fs0));
                }
                Ok(())
            },
        }
    }
}

} // verus!
