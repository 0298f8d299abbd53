//! The builder that assembles a whole help project: it derives the output
//! paths once, collects topics, and renders everything that has to be
//! written to disk.

use crate::contents::Corpus;
use crate::contents::DEPENDENCY_FUEL;
use crate::contents::File;
use crate::contents::FileModel;
use crate::contents::add_file_spec;
use crate::contents::clone_bytes;
use crate::contents::file_models;
use crate::error::ChmError;
use crate::hhc::ChmContents;
use crate::hhc::ChmContentsEntry;
use crate::hhc::EntryModel;
use crate::hhc::flatten_children;
use crate::hhc::lemma_models_of;
use crate::hhc::lemma_models_of_concat;
use crate::hhc::models_of;
use crate::hhk::ChmIndex;
use crate::hhk::ChmIndexEntry;
use crate::hhk::index_line_of;
use crate::hhk::index_lines;
use crate::hhk::index_text_of;
use crate::hhp::ChmProject;
use crate::hhp::project_text_of;
use crate::language::ChmLanguage;
use crate::utilities::join_path;
use crate::utilities::join_spec;
use crate::utilities::parent_of;
use crate::utilities::parent_spec;
use crate::utilities::to_windows_path;
use crate::utilities::to_windows_spec;
use crate::utilities::with_extension;
use crate::utilities::with_extension_spec;
use vstd::prelude::*;
use vstd::string::StrSliceExecFns;
use vstd::string::StringExecFns;
use vstd::utf8::encode_utf8;

verus! {

/// A topic of the help file, built from one source document; topics nest.
pub struct ChmTopicBuilder(pub ChmContentsEntry);

impl View for ChmTopicBuilder {
    type V = EntryModel;

    open spec fn view(&self) -> EntryModel {
        self.0@
    }
}

impl ChmTopicBuilder {
    /// Build a topic from a source document.  Dependencies are drawn from
    /// the corpus; a missing one fails with its path.
    pub fn new(title: &str, file: &str, contents: Vec<u8>, corpus: &Corpus) -> (r: Result<
        Self,
        ChmError,
    >)
        ensures
            match r {
                Ok(t) => add_file_spec(
                    file@,
                    contents@,
                    *corpus,
                    DEPENDENCY_FUEL as nat,
                ) matches Ok(fs) && fs.len() >= 1 && t@ == (EntryModel {
                    title: title@,
                    file: to_windows_spec(fs.last().path),
                    children: Seq::empty(),
                    files: fs,
                }),
                Err(e) => add_file_spec(file@, contents@, *corpus, DEPENDENCY_FUEL as nat)
                    == Err::<Seq<FileModel>, _>(e@),
            },
    {
        match ChmContentsEntry::with_contents(title, file, contents, corpus) {
            Ok(entry) => Ok(ChmTopicBuilder(entry)),
            Err(e) => Err(e),
        }
    }

    /// Add a subtopic under this topic.
    pub fn with_child(&mut self, child: ChmTopicBuilder)
        ensures
            final(self)@ == (EntryModel {
                children: old(self)@.children.push(child@),
                ..old(self)@
            }),
    {
        let ghost before = self.0.children@;
        self.0.children.push(child.0);
        proof {
            assert(self.0.children@ == before.push(child.0));
            assert(self.0.children@ =~= before + seq![child.0]);
            lemma_models_of_concat(before, seq![child.0]);
            lemma_models_of(seq![child.0]);
            assert(models_of(seq![child.0]) =~= seq![child.0@]);
            assert(models_of(self.0.children@) =~= old(self)@.children.push(child@));
        }
    }
}

/// The working directory of a build: a `src` directory next to the
/// requested output file.
pub open spec fn working_dir_spec(output_path: Seq<char>) -> Seq<char> {
    join_spec(parent_spec(with_extension_spec(output_path, "chm"@)), "src"@)
}

/// Assembles a help project and renders every file it has to write.
pub struct ChmBuilder {
    /// The project manifest (its file list is filled in when rendering).
    pub project: ChmProject,
    /// The topic tree.
    pub contents: ChmContents,
    /// Where the manifest itself is written.
    pub project_path: String,
    /// The directory that receives every rendered file.
    pub working_dir: String,
}

impl ChmBuilder {
    /// Start a project: the three companion paths are derived, once, from
    /// the requested output path.  Hand an absolute output path in when the
    /// files should land at an absolute place.
    pub fn new(title: &str, language: ChmLanguage, output_path: &str) -> (r: Self)
        ensures
            r.project.title@ == title@,
            r.project.language == language,
            r.project.output_path@ == to_windows_spec(
                with_extension_spec(output_path@, "chm"@),
            ),
            r.project.contents_path@ == to_windows_spec(
                join_spec(working_dir_spec(output_path@), "contents.hhc"@),
            ),
            r.project.index_path@ == to_windows_spec(
                join_spec(working_dir_spec(output_path@), "index.hhk"@),
            ),
            r.project.default_file@.len() == 0,
            r.project.files@.len() == 0,
            r.project_path@ == join_spec(working_dir_spec(output_path@), "project.hpp"@),
            r.working_dir@ == working_dir_spec(output_path@),
            r.contents@.len() == 0,
    {
        let out = with_extension(output_path, "chm");
        let out_dir = parent_of(out.as_str());
        let working = join_path(out_dir.as_str(), "src");
        let project_path = join_path(working.as_str(), "project.hpp");
        let contents_path = join_path(working.as_str(), "contents.hhc");
        let index_path = join_path(working.as_str(), "index.hhk");
        let project = ChmProject {
            title: String::from_str(title),
            language,
            output_path: to_windows_path(out.as_str()),
            index_path: to_windows_path(index_path.as_str()),
            contents_path: to_windows_path(contents_path.as_str()),
            default_file: String::new(),
            files: Vec::new(),
        };
        let r = ChmBuilder {
            project,
            contents: ChmContents(Vec::new()),
            project_path,
            working_dir: working,
        };
        proof {
            lemma_models_of(r.contents.0@);
        }
        r
    }

    /// Add a topic tree to the project.  The first topic that owns a file
    /// sets the default topic, to its own page.
    pub fn with_contents(&mut self, topic: ChmTopicBuilder)
        ensures
            final(self).contents@ == old(self).contents@ + seq![topic@],
            final(self).project.default_file@ == (if old(self).project.default_file@.len() == 0
                && topic@.files.len() > 0 {
                to_windows_spec(topic@.files.last().path)
            } else {
                old(self).project.default_file@
            }),
            final(self).project.title == old(self).project.title,
            final(self).project.language == old(self).project.language,
            final(self).project.output_path == old(self).project.output_path,
            final(self).project.index_path == old(self).project.index_path,
            final(self).project.contents_path == old(self).project.contents_path,
            final(self).project.files == old(self).project.files,
            final(self).project_path == old(self).project_path,
            final(self).working_dir == old(self).working_dir,
    {
        if self.project.default_file.unicode_len() == 0 && topic.0.files.len() > 0 {
            let n = topic.0.files.len();
            self.project.default_file = to_windows_path(topic.0.files[n - 1].path.as_str());
            proof {
                assert(file_models(topic.0.files@).last() == topic.0.files@[n - 1]@);
            }
        }
        let ghost before = self.contents.0@;
        self.contents.0.push(topic.0);
        proof {
            assert(self.contents.0@ =~= before + seq![topic.0]);
            lemma_models_of_concat(before, seq![topic.0]);
            lemma_models_of(seq![topic.0]);
            assert(models_of(seq![topic.0]) =~= seq![topic.0@]);
        }
    }
}


/// The index lines of a flattened tree: one per entry, keyed by its title.
pub open spec fn flat_index_lines(flat: Seq<EntryModel>) -> Seq<Seq<char>>
    decreases flat,
{
    if flat.len() == 0 {
        Seq::empty()
    } else {
        seq![index_line_of(flat[0].title, flat[0].file)] + flat_index_lines(flat.skip(1))
    }
}

/// Length and elementwise reading of `flat_index_lines`.
proof fn lemma_flat_index_lines(flat: Seq<EntryModel>)
    ensures
        flat_index_lines(flat).len() == flat.len(),
        forall|i: int|
            0 <= i < flat.len() ==> flat_index_lines(flat)[i] == index_line_of(
                flat[i].title,
                flat[i].file,
            ),
    decreases flat,
{
    if flat.len() > 0 {
        lemma_flat_index_lines(flat.skip(1));
    }
}

/// The backslash forms of the paths of a list of files.
pub open spec fn windows_paths(files: Seq<FileModel>) -> Seq<Seq<char>>
    decreases files,
{
    if files.len() == 0 {
        Seq::empty()
    } else {
        seq![to_windows_spec(files[0].path)] + windows_paths(files.skip(1))
    }
}

proof fn lemma_windows_paths(files: Seq<FileModel>)
    ensures
        windows_paths(files).len() == files.len(),
        forall|i: int|
            0 <= i < files.len() ==> windows_paths(files)[i] == to_windows_spec(files[i].path),
    decreases files,
{
    if files.len() > 0 {
        lemma_windows_paths(files.skip(1));
    }
}

/// The manifest's file list: the flattened entries' files, in order.
pub open spec fn manifest_files(flat: Seq<EntryModel>) -> Seq<Seq<char>>
    decreases flat,
{
    if flat.len() == 0 {
        Seq::empty()
    } else {
        windows_paths(flat[0].files) + manifest_files(flat.skip(1))
    }
}

proof fn lemma_manifest_files_snoc(flat: Seq<EntryModel>)
    requires
        flat.len() > 0,
    ensures
        manifest_files(flat) == manifest_files(flat.drop_last()) + windows_paths(flat.last().files),
    decreases flat,
{
    if flat.len() == 1 {
        assert(flat.skip(1) =~= Seq::<EntryModel>::empty());
        assert(flat.drop_last() =~= Seq::<EntryModel>::empty());
        assert(manifest_files(flat.drop_last()) + windows_paths(flat.last().files) =~= windows_paths(
            flat[0].files,
        ) + manifest_files(flat.skip(1)));
    } else {
        lemma_manifest_files_snoc(flat.skip(1));
        assert(flat.skip(1).drop_last() =~= flat.drop_last().skip(1));
        assert(flat.skip(1).last() == flat.last());
        assert(manifest_files(flat.drop_last()) + windows_paths(flat.last().files) =~= windows_paths(
            flat[0].files,
        ) + manifest_files(flat.skip(1)));
    }
}

/// One entry's files placed under the working directory.
pub open spec fn placed_files(files: Seq<FileModel>, dir: Seq<char>) -> Seq<FileModel>
    decreases files,
{
    if files.len() == 0 {
        Seq::empty()
    } else {
        seq![FileModel { path: join_spec(dir, files[0].path), contents: files[0].contents }]
            + placed_files(files.skip(1), dir)
    }
}

proof fn lemma_placed_files(files: Seq<FileModel>, dir: Seq<char>)
    ensures
        placed_files(files, dir).len() == files.len(),
        forall|i: int|
            0 <= i < files.len() ==> placed_files(files, dir)[i] == (FileModel {
                path: join_spec(dir, files[i].path),
                contents: files[i].contents,
            }),
    decreases files,
{
    if files.len() > 0 {
        lemma_placed_files(files.skip(1), dir);
    }
}

/// The files written for the topics: every owned file of every flattened
/// entry, placed under the working directory.
pub open spec fn topic_outputs(flat: Seq<EntryModel>, dir: Seq<char>) -> Seq<FileModel>
    decreases flat,
{
    if flat.len() == 0 {
        Seq::empty()
    } else {
        placed_files(flat[0].files, dir) + topic_outputs(flat.skip(1), dir)
    }
}

proof fn lemma_topic_outputs_snoc(flat: Seq<EntryModel>, dir: Seq<char>)
    requires
        flat.len() > 0,
    ensures
        topic_outputs(flat, dir) == topic_outputs(flat.drop_last(), dir) + placed_files(
            flat.last().files,
            dir,
        ),
    decreases flat,
{
    if flat.len() == 1 {
        assert(flat.skip(1) =~= Seq::<EntryModel>::empty());
        assert(flat.drop_last() =~= Seq::<EntryModel>::empty());
        assert(topic_outputs(flat.drop_last(), dir) + placed_files(flat.last().files, dir)
            =~= placed_files(flat[0].files, dir) + topic_outputs(flat.skip(1), dir));
    } else {
        lemma_topic_outputs_snoc(flat.skip(1), dir);
        assert(flat.skip(1).drop_last() =~= flat.drop_last().skip(1));
        assert(flat.skip(1).last() == flat.last());
        assert(topic_outputs(flat.drop_last(), dir) + placed_files(flat.last().files, dir)
            =~= placed_files(flat[0].files, dir) + topic_outputs(flat.skip(1), dir));
    }
}

/// Every file a build writes: the manifest, the contents and index
/// sitemaps, then each topic's files under the working directory.
pub open spec fn outputs_of(b: ChmBuilder) -> Seq<FileModel> {
    let flat = flatten_children(b.contents@);
    seq![
        FileModel {
            path: b.project_path@,
            contents: encode_utf8(
                project_text_of(
                    b.project.title@,
                    b.project.language,
                    b.project.output_path@,
                    b.project.index_path@,
                    b.project.contents_path@,
                    b.project.default_file@,
                    manifest_files(flat),
                ),
            ),
        },
        FileModel {
            path: b.project.contents_path@,
            contents: encode_utf8(b.contents.spec_text()),
        },
        FileModel {
            path: b.project.index_path@,
            contents: encode_utf8(index_text_of(flat_index_lines(flat))),
        },
    ] + topic_outputs(flat, b.working_dir@)
}

impl ChmBuilder {
    /// Render every file of the project: the manifest (its file list drawn
    /// from the flattened topic tree), the two sitemaps, and each topic's
    /// files placed under the working directory.
    pub fn output_files(&self) -> (r: Vec<File>)
        ensures
            file_models(r@) == outputs_of(*self),
    {
        let ghost flatm = flatten_children(self.contents@);
        let contents_text = self.contents.to_text();
        let flat = self.contents.clone().flatten();
        proof {
            assert(models_of(flat@) == flatm);
            lemma_models_of(flat@);
            assert(flatm.take(0) =~= Seq::<EntryModel>::empty());
        }
        let mut index_entries: Vec<ChmIndexEntry> = Vec::new();
        let mut file_list: Vec<String> = Vec::new();
        let mut dep_out: Vec<File> = Vec::new();
        let n = flat.len();
        let mut i: usize = 0;
        while i < n
            invariant
                i <= n,
                n == flat@.len(),
                flatm == models_of(flat@),
                flatm.len() == n,
                index_lines(index_entries@) =~= flat_index_lines(flatm.take(i as int)),
                file_list.deep_view() =~= manifest_files(flatm.take(i as int)),
                file_models(dep_out@) =~= topic_outputs(flatm.take(i as int), self.working_dir@),
            decreases n - i,
        {
            proof {
                lemma_models_of(flat@);
                assert(flatm[i as int] == crate::hhc::entry_model(flat@[i as int]));
            }
            let entry = ChmIndexEntry {
                keyword: flat[i].title.clone(),
                file: flat[i].file.clone(),
            };
            let ghost ie0 = index_entries@;
            index_entries.push(entry);
            proof {
                lemma_flat_index_lines(flatm.take(i + 1));
                lemma_flat_index_lines(flatm.take(i as int));
                let new_lines = index_lines(index_entries@);
                let tgt = flat_index_lines(flatm.take(i + 1));
                assert(new_lines.len() == i + 1);
                assert(tgt.len() == i + 1);
                assert forall|t: int| 0 <= t < i + 1 implies new_lines[t] == tgt[t] by {
                    assert(tgt[t] == index_line_of(
                        flatm.take(i + 1)[t].title,
                        flatm.take(i + 1)[t].file,
                    ));
                    if t < i {
                        assert(index_entries@[t] == ie0[t]);
                        assert(new_lines[t] == index_lines(ie0)[t]);
                        assert(flat_index_lines(flatm.take(i as int))[t] == index_line_of(
                            flatm.take(i as int)[t].title,
                            flatm.take(i as int)[t].file,
                        ));
                        assert(flatm.take(i + 1)[t] == flatm.take(i as int)[t]);
                    } else {
                        assert(index_entries@[t] == entry);
                        assert(flatm.take(i + 1)[t] == flatm[i as int]);
                        assert(flatm[i as int] == crate::hhc::entry_model(flat@[i as int]));
                        assert(entry.spec_line() == index_line_of(
                            flatm[i as int].title,
                            flatm[i as int].file,
                        ));
                    }
                }
                assert(new_lines =~= tgt);
            }
            let m = flat[i].files.len();
            proof {
                assert(flatm[i as int].files.len() == m) by {
                    assert(flatm[i as int] == crate::hhc::entry_model(flat@[i as int]));
                }
                assert(windows_paths(flatm[i as int].files).take(0) =~= Seq::<Seq<char>>::empty());
                assert(placed_files(flatm[i as int].files, self.working_dir@).take(0) =~= Seq::<
                    FileModel,
                >::empty());
            }
            let ghost fl0 = file_list.deep_view();
            let ghost dp0 = file_models(dep_out@);
            let mut j: usize = 0;
            while j < m
                invariant
                    j <= m,
                    i < n,
                    n == flat@.len(),
                    flatm == models_of(flat@),
                    flatm.len() == n,
                    m == flat@[i as int].files.len(),
                    flatm[i as int] == crate::hhc::entry_model(flat@[i as int]),
                    m == flatm[i as int].files.len(),
                    fl0 == file_list.deep_view().take(fl0.len() as int),
                    file_list.deep_view() =~= fl0 + windows_paths(flatm[i as int].files).take(
                        j as int,
                    ),
                    file_models(dep_out@) =~= dp0 + placed_files(
                        flatm[i as int].files,
                        self.working_dir@,
                    ).take(j as int),
                decreases m - j,
            {
                proof {
                    lemma_windows_paths(flatm[i as int].files);
                    lemma_placed_files(flatm[i as int].files, self.working_dir@);
                    assert(flatm[i as int].files[j as int] == flat@[i as int].files@[j as int]@);
                }
                let wp = to_windows_path(flat[i].files[j].path.as_str());
                let ghost flp = file_list.deep_view();
                file_list.push(wp);
                let placed = File {
                    path: join_path(self.working_dir.as_str(), flat[i].files[j].path.as_str()),
                    contents: clone_bytes(&flat[i].files[j].contents),
                };
                let ghost dpp = file_models(dep_out@);
                dep_out.push(placed);
                proof {
                    lemma_windows_paths(flatm[i as int].files);
                    lemma_placed_files(flatm[i as int].files, self.working_dir@);
                    let wps = windows_paths(flatm[i as int].files);
                    let pls = placed_files(flatm[i as int].files, self.working_dir@);
                    assert(file_list.deep_view().len() == flp.len() + 1);
                    assert forall|t: int|
                        0 <= t < file_list.deep_view().len() implies file_list.deep_view()[t] == (
                    fl0 + wps.take(j + 1))[t] by {
                        if t < flp.len() {
                            assert(file_list@[t] == file_list@.drop_last()[t]);
                            assert(file_list.deep_view()[t] == flp[t]);
                            assert(flp[t] == (fl0 + wps.take(j as int))[t]);
                            if t >= fl0.len() {
                                assert(wps.take(j as int)[t - fl0.len()] == wps.take(j + 1)[t
                                    - fl0.len()]);
                            }
                        } else {
                            assert(file_list@[t] == wp);
                            assert(wp@ == to_windows_spec(flatm[i as int].files[j as int].path));
                            assert(wps.take(j + 1)[j as int] == wps[j as int]);
                        }
                    }
                    assert(file_list.deep_view() =~= fl0 + wps.take(j + 1));
                    assert(file_models(dep_out@).len() == dpp.len() + 1);
                    assert forall|t: int|
                        0 <= t < file_models(dep_out@).len() implies file_models(dep_out@)[t] == (
                    dp0 + pls.take(j + 1))[t] by {
                        if t < dpp.len() {
                            assert(dep_out@[t] == dep_out@.drop_last()[t]);
                            assert(file_models(dep_out@)[t] == dpp[t]);
                            assert(dpp[t] == (dp0 + pls.take(j as int))[t]);
                            if t >= dp0.len() {
                                assert(pls.take(j as int)[t - dp0.len()] == pls.take(j + 1)[t
                                    - dp0.len()]);
                            }
                        } else {
                            assert(dep_out@[t] == placed);
                            assert(placed@ == (FileModel {
                                path: join_spec(
                                    self.working_dir@,
                                    flatm[i as int].files[j as int].path,
                                ),
                                contents: flatm[i as int].files[j as int].contents,
                            }));
                            assert(pls.take(j + 1)[j as int] == pls[j as int]);
                        }
                    }
                    assert(file_models(dep_out@) =~= dp0 + pls.take(j + 1));
                }
                j = j + 1;
            }
            proof {
                lemma_windows_paths(flatm[i as int].files);
                lemma_placed_files(flatm[i as int].files, self.working_dir@);
                assert(windows_paths(flatm[i as int].files).take(m as int) =~= windows_paths(
                    flatm[i as int].files,
                ));
                assert(placed_files(flatm[i as int].files, self.working_dir@).take(m as int)
                    =~= placed_files(flatm[i as int].files, self.working_dir@));
                lemma_manifest_files_snoc(flatm.take(i + 1));
                lemma_topic_outputs_snoc(flatm.take(i + 1), self.working_dir@);
                assert(flatm.take(i + 1).drop_last() =~= flatm.take(i as int));
                assert(flatm.take(i + 1).last() == flatm[i as int]);
                assert(file_list.deep_view() =~= manifest_files(flatm.take(i + 1)));
                assert(file_models(dep_out@) =~= topic_outputs(
                    flatm.take(i + 1),
                    self.working_dir@,
                ));
            }
            i = i + 1;
        }
        proof {
            assert(flatm.take(n as int) =~= flatm);
        }
        let index = ChmIndex(index_entries);
        let index_text = index.to_text();
        let project = ChmProject {
            title: self.project.title.clone(),
            language: self.project.language,
            output_path: self.project.output_path.clone(),
            index_path: self.project.index_path.clone(),
            contents_path: self.project.contents_path.clone(),
            default_file: self.project.default_file.clone(),
            files: file_list,
        };
        let project_text = project.to_text();
        proof {
            assert(project.spec_text() == project_text_of(
                self.project.title@,
                self.project.language,
                self.project.output_path@,
                self.project.index_path@,
                self.project.contents_path@,
                self.project.default_file@,
                manifest_files(flatm),
            ));
        }
        let mut out: Vec<File> = Vec::new();
        out.push(File { path: self.project_path.clone(), contents: project_text.as_str().as_bytes_vec() });
        out.push(
            File {
                path: self.project.contents_path.clone(),
                contents: contents_text.as_str().as_bytes_vec(),
            },
        );
        out.push(
            File {
                path: self.project.index_path.clone(),
                contents: index_text.as_str().as_bytes_vec(),
            },
        );
        let ghost head = file_models(out@);
        let mut d = dep_out;
        let ghost dmodels = file_models(d@);
        out.append(&mut d);
        proof {
            assert(file_models(out@) =~= head + dmodels);
            assert(head =~= outputs_of(*self).take(3));
            assert(file_models(out@) =~= outputs_of(*self));
        }
        out
    }
}

} // verus!
