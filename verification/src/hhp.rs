//! The project file is a text file with the settings of a compiled help
//! build: the files to include, the title, and the locations of the contents
//! and index files.

use crate::language::ChmLanguage;
use crate::utilities::escape_html;
use crate::utilities::escape_spec;
use vstd::prelude::*;
use vstd::string::StringExecFns;

verus! {

/// The project manifest, which ties the whole build together.
pub struct ChmProject {
    /// Book title.
    pub title: String,
    /// Language of the output.
    pub language: ChmLanguage,
    /// Path of the resulting compiled file.
    pub output_path: String,
    /// Path of the index file.
    pub index_path: String,
    /// Path of the contents file.
    pub contents_path: String,
    /// Topic shown when the file is opened.
    pub default_file: String,
    /// Every file of the project, one relative path per line.
    pub files: Vec<String>,
}

/// The `[FILES]` block: each path escaped, one per line.
pub open spec fn files_block(files: Seq<Seq<char>>) -> Seq<char>
    decreases files.len(),
{
    if files.len() == 0 {
        Seq::empty()
    } else {
        escape_spec(files[0]) + "\n"@ + files_block(files.skip(1))
    }
}

proof fn lemma_files_block_snoc(s: Seq<Seq<char>>)
    requires
        s.len() > 0,
    ensures
        files_block(s) == files_block(s.drop_last()) + escape_spec(s.last()) + "\n"@,
    decreases s.len(),
{
    if s.len() == 1 {
        assert(s.skip(1) =~= Seq::<Seq<char>>::empty());
        assert(s.drop_last() =~= Seq::<Seq<char>>::empty());
        assert(files_block(s.drop_last()) + escape_spec(s.last()) + "\n"@ =~= escape_spec(s[0])
            + "\n"@ + files_block(s.skip(1)));
    } else {
        lemma_files_block_snoc(s.skip(1));
        assert(s.skip(1).drop_last() =~= s.drop_last().skip(1));
        assert(s.skip(1).last() == s.last());
        assert(files_block(s.drop_last()) + escape_spec(s.last()) + "\n"@ =~= escape_spec(s[0])
            + "\n"@ + files_block(s.skip(1)));
    }
}

/// The text of a manifest up to and including the `[FILES]` heading, from
/// its field values.
pub open spec fn project_head_of(
    title: Seq<char>,
    language: ChmLanguage,
    output_path: Seq<char>,
    index_path: Seq<char>,
    contents_path: Seq<char>,
    default_file: Seq<char>,
) -> Seq<char> {
    "[OPTIONS]\nBinary TOC=Yes\nCompatibility=1.1 or later\nCompiled file="@ + escape_spec(
        output_path,
    ) + "\nContents file="@ + escape_spec(contents_path) + "\nDefault topic="@ + escape_spec(
        default_file,
    )
        + "\nDisplay compile progress=Yes\nEnhanced decompilation=Yes\nFull-text search=Yes\nIndex file="@
        + escape_spec(index_path) + "\nLanguage="@ + escape_spec(language.spec_line()) + "\nTitle="@
        + escape_spec(title) + "\n\n\n[FILES]\n"@
}

/// The full text of a manifest, from its field values.
pub open spec fn project_text_of(
    title: Seq<char>,
    language: ChmLanguage,
    output_path: Seq<char>,
    index_path: Seq<char>,
    contents_path: Seq<char>,
    default_file: Seq<char>,
    files: Seq<Seq<char>>,
) -> Seq<char> {
    project_head_of(title, language, output_path, index_path, contents_path, default_file)
        + files_block(files) + "\n[INFOTYPES]"@
}

impl ChmProject {
    /// The text of the manifest up to and including the `[FILES]` heading.
    pub open spec fn spec_head(self) -> Seq<char> {
        project_head_of(
            self.title@,
            self.language,
            self.output_path@,
            self.index_path@,
            self.contents_path@,
            self.default_file@,
        )
    }

    /// The full text of the manifest.
    pub open spec fn spec_text(self) -> Seq<char> {
        self.spec_head() + files_block(self.files.deep_view()) + "\n[INFOTYPES]"@
    }

    /// Render the manifest in its exact schema.
    pub fn to_text(&self) -> (r: String)
        ensures
            r@ == self.spec_text(),
    {
        let mut out = String::new();
        out.append("[OPTIONS]\nBinary TOC=Yes\nCompatibility=1.1 or later\nCompiled file=");
        let e_out = escape_html(self.output_path.as_str());
        out.append(e_out.as_str());
        out.append("\nContents file=");
        let e_con = escape_html(self.contents_path.as_str());
        out.append(e_con.as_str());
        out.append("\nDefault topic=");
        let e_def = escape_html(self.default_file.as_str());
        out.append(e_def.as_str());
        out.append(
            "\nDisplay compile progress=Yes\nEnhanced decompilation=Yes\nFull-text search=Yes\nIndex file=",
        );
        let e_idx = escape_html(self.index_path.as_str());
        out.append(e_idx.as_str());
        out.append("\nLanguage=");
        let lang = self.language.to_text();
        let e_lang = escape_html(lang.as_str());
        out.append(e_lang.as_str());
        out.append("\nTitle=");
        let e_title = escape_html(self.title.as_str());
        out.append(e_title.as_str());
        out.append("\n\n\n[FILES]\n");
        let n = self.files.len();
        let mut i: usize = 0;
        proof {
            assert(self.files.deep_view().take(0) =~= Seq::<Seq<char>>::empty());
        }
        while i < n
            invariant
                i <= n,
                n == self.files.len(),
                out@ == self.spec_head() + files_block(self.files.deep_view().take(i as int)),
            decreases n - i,
        {
            let e_file = escape_html(self.files[i].as_str());
            out.append(e_file.as_str());
            out.append("\n");
            proof {
                let dv = self.files.deep_view();
                lemma_files_block_snoc(dv.take(i + 1));
                assert(dv.take(i + 1).drop_last() =~= dv.take(i as int));
                assert(dv.take(i + 1).last() == self.files@[i as int]@);
            }
            i = i + 1;
        }
        out.append("\n[INFOTYPES]");
        proof {
            assert(self.files.deep_view().take(n as int) =~= self.files.deep_view());
        }
        out
    }
}

} // verus!
