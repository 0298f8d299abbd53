//! The index file is an HTML file with the keywords of the project.  When a
//! reader opens the index in a compiled help file and picks a keyword, the
//! page associated with it opens.

use crate::utilities::escape_html;
use crate::utilities::escape_spec;
use crate::utilities::join_lines;
use crate::utilities::lemma_join_lines_snoc;
use vstd::prelude::*;
use vstd::string::StringExecFns;

verus! {

/// The keyword index of the help project.
pub struct ChmIndex(pub Vec<ChmIndexEntry>);

/// A single entry of the index.
pub struct ChmIndexEntry {
    /// Keyword to display.
    pub keyword: String,
    /// Path opened for the keyword.
    pub file: String,
}

/// One line of index sitemap text, both values escaped.
pub open spec fn index_line_of(keyword: Seq<char>, file: Seq<char>) -> Seq<char> {
    "    <LI> <OBJECT type=\"text/sitemap\">        <param name=\"Name\" value=\""@
        + escape_spec(keyword) + "\">        <param name=\"Local\" value=\""@ + escape_spec(file)
        + "\">        </OBJECT>"@
}

impl ChmIndexEntry {
    /// The one line of sitemap text for this entry, with both values escaped.
    pub open spec fn spec_line(self) -> Seq<char> {
        index_line_of(self.keyword@, self.file@)
    }

    /// Render the entry as its sitemap line.
    pub fn to_text(&self) -> (r: String)
        ensures
            r@ == self.spec_line(),
    {
        let mut out = String::new();
        out.append("    <LI> <OBJECT type=\"text/sitemap\">        <param name=\"Name\" value=\"");
        let kw = escape_html(self.keyword.as_str());
        out.append(kw.as_str());
        out.append("\">        <param name=\"Local\" value=\"");
        let f = escape_html(self.file.as_str());
        out.append(f.as_str());
        out.append("\">        </OBJECT>");
        out
    }
}

/// The sitemap lines of a list of entries.
pub open spec fn index_lines(entries: Seq<ChmIndexEntry>) -> Seq<Seq<char>> {
    entries.map_values(|e: ChmIndexEntry| e.spec_line())
}

/// The full text of an index file with the given entry lines.
pub open spec fn index_text_of(lines: Seq<Seq<char>>) -> Seq<char> {
    ChmIndex::spec_header() + "\n<UL>\n"@ + join_lines(lines, "\n"@) + "\n</UL>\n</BODY></HTML>"@
}

impl ChmIndex {
    /// The fixed header of the index file.
    pub open spec fn spec_header() -> Seq<char> {
        "<!DOCTYPE HTML PUBLIC \"-//IETF//DTD HTML//EN\"><HTML><HEAD><meta name=\"GENERATOR\" content=\"@rscarson&reg; mdbook-chm\"><!-- Sitemap 1.0 --></HEAD><BODY>"@
    }

    /// The full text of the index file.
    pub open spec fn spec_text(self) -> Seq<char> {
        index_text_of(index_lines(self.0@))
    }

    /// Render the index file in its exact schema.
    pub fn to_text(&self) -> (r: String)
        ensures
            r@ == self.spec_text(),
    {
        let mut out = String::new();
        out.append(
            "<!DOCTYPE HTML PUBLIC \"-//IETF//DTD HTML//EN\"><HTML><HEAD><meta name=\"GENERATOR\" content=\"@rscarson&reg; mdbook-chm\"><!-- Sitemap 1.0 --></HEAD><BODY>",
        );
        out.append("\n<UL>\n");
        let n = self.0.len();
        let mut i: usize = 0;
        proof {
            assert(index_lines(self.0@.take(0)) =~= Seq::<Seq<char>>::empty());
        }
        while i < n
            invariant
                i <= n,
                n == self.0.len(),
                out@ == ChmIndex::spec_header() + "\n<UL>\n"@ + join_lines(
                    index_lines(self.0@.take(i as int)),
                    "\n"@,
                ),
            decreases n - i,
        {
            if i > 0 {
                out.append("\n");
            }
            let line = self.0[i].to_text();
            out.append(line.as_str());
            proof {
                let all = index_lines(self.0@.take(i + 1));
                assert(all.drop_last() =~= index_lines(self.0@.take(i as int)));
                assert(all.last() == self.0@[i as int].spec_line());
                if i > 0 {
                    lemma_join_lines_snoc(all, "\n"@);
                } else {
                    assert(all.len() == 1);
                    assert(join_lines(all, "\n"@) == all[0]);
                }
            }
            i = i + 1;
        }
        out.append("\n</UL>\n</BODY></HTML>");
        proof {
            assert(self.0@.take(n as int) =~= self.0@);
        }
        out
    }
}

} // verus!
