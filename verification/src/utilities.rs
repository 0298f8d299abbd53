//! String and path helpers shared by the serializers and the transformer.
//!
//! Paths are modelled as plain strings: `/` and `\` are taken as separators,
//! and the extension rules follow the usual "last dot of the final component"
//! convention.

use vstd::prelude::*;
use vstd::string::StrSliceExecFns;
use vstd::string::StringExecFns;

verus! {

/// The characters accepted as path separators.
pub open spec fn is_sep(c: char) -> bool {
    c == '/' || c == '\\'
}

/// How one character is escaped in the help artifacts.
pub open spec fn escape_char_spec(c: char) -> Seq<char> {
    if c == '&' {
        "&amp;"@
    } else if c == '<' {
        "&lt;"@
    } else if c == '>' {
        "&gt;"@
    } else if c == '"' {
        "&quot;"@
    } else if c == '\'' {
        "&apos;"@
    } else {
        seq![c]
    }
}

/// The full escaping of a string, character by character.
pub open spec fn escape_spec(s: Seq<char>) -> Seq<char>
    decreases s.len(),
{
    if s.len() == 0 {
        Seq::empty()
    } else {
        escape_char_spec(s[0]) + escape_spec(s.skip(1))
    }
}

proof fn lemma_escape_snoc(s: Seq<char>)
    requires
        s.len() > 0,
    ensures
        escape_spec(s) == escape_spec(s.drop_last()) + escape_char_spec(s.last()),
    decreases s.len(),
{
    if s.len() == 1 {
        assert(s.drop_last() =~= Seq::<char>::empty());
        assert(s.skip(1) =~= Seq::<char>::empty());
        assert(escape_spec(s.drop_last()) + escape_char_spec(s.last()) =~= escape_char_spec(
            s[0],
        ) + escape_spec(s.skip(1)));
    } else {
        lemma_escape_snoc(s.skip(1));
        assert(s.skip(1).drop_last() =~= s.drop_last().skip(1));
        assert(s.skip(1).last() == s.last());
        assert(escape_spec(s.drop_last()) == escape_char_spec(s[0]) + escape_spec(
            s.drop_last().skip(1),
        ));
        assert(escape_spec(s.drop_last()) + escape_char_spec(s.last()) =~= escape_char_spec(s[0])
            + (escape_spec(s.skip(1).drop_last()) + escape_char_spec(s.skip(1).last())));
    }
}

/// One of the five escape entities starts at position `i` of `s`.
pub open spec fn entity_at(s: Seq<char>, i: int) -> bool {
    ||| (i + 5 <= s.len() && s.subrange(i, i + 5) == "&amp;"@)
    ||| (i + 4 <= s.len() && s.subrange(i, i + 4) == "&lt;"@)
    ||| (i + 4 <= s.len() && s.subrange(i, i + 4) == "&gt;"@)
    ||| (i + 6 <= s.len() && s.subrange(i, i + 6) == "&quot;"@)
    ||| (i + 6 <= s.len() && s.subrange(i, i + 6) == "&apos;"@)
}

/// An escaped string never holds a raw `<`, `>`, `"` or `'`, and every `&`
/// in it begins one of the five escape entities.
pub proof fn lemma_escape_well_formed(s: Seq<char>)
    ensures
        forall|i: int|
            0 <= i < escape_spec(s).len() ==> escape_spec(s)[i] != '<' && escape_spec(s)[i] != '>'
                && escape_spec(s)[i] != '"' && escape_spec(s)[i] != '\'',
        forall|i: int|
            0 <= i < escape_spec(s).len() && escape_spec(s)[i] == '&' ==> entity_at(
                escape_spec(s),
                i,
            ),
    decreases s.len(),
{
    reveal_strlit("&amp;");
    reveal_strlit("&lt;");
    reveal_strlit("&gt;");
    reveal_strlit("&quot;");
    reveal_strlit("&apos;");
    if s.len() > 0 {
        lemma_escape_well_formed(s.skip(1));
        let b = escape_char_spec(s[0]);
        let r = escape_spec(s.skip(1));
        let e = escape_spec(s);
        assert(e == b + r);
        assert forall|i: int|
            0 <= i < e.len() implies e[i] != '<' && e[i] != '>' && e[i] != '"' && e[i]
            != '\'' by {
            if i < b.len() {
                assert(e[i] == b[i]);
            } else {
                assert(e[i] == r[i - b.len()]);
            }
        }
        assert forall|i: int| 0 <= i < e.len() && e[i] == '&' implies entity_at(e, i) by {
            if i < b.len() {
                assert(e[i] == b[i]);
                if s[0] == '&' || s[0] == '<' || s[0] == '>' || s[0] == '"' || s[0] == '\'' {
                    assert(i == 0);
                    assert(e.subrange(0, b.len() as int) =~= b);
                } else {
                    assert(b =~= seq![s[0]]);
                    assert(false);
                }
            } else {
                let j = i - b.len();
                assert(e[i] == r[j]);
                assert(entity_at(r, j));
                if j + 5 <= r.len() && r.subrange(j, j + 5) == "&amp;"@ {
                    assert(e.subrange(i, i + 5) =~= r.subrange(j, j + 5));
                } else if j + 4 <= r.len() && r.subrange(j, j + 4) == "&lt;"@ {
                    assert(e.subrange(i, i + 4) =~= r.subrange(j, j + 4));
                } else if j + 4 <= r.len() && r.subrange(j, j + 4) == "&gt;"@ {
                    assert(e.subrange(i, i + 4) =~= r.subrange(j, j + 4));
                } else if j + 6 <= r.len() && r.subrange(j, j + 6) == "&quot;"@ {
                    assert(e.subrange(i, i + 6) =~= r.subrange(j, j + 6));
                } else {
                    assert(j + 6 <= r.len() && r.subrange(j, j + 6) == "&apos;"@);
                    assert(e.subrange(i, i + 6) =~= r.subrange(j, j + 6));
                }
            }
        }
    }
}

/// Escape the five characters that the help artifacts cannot hold verbatim.
pub fn escape_html(text: &str) -> (r: String)
    ensures
        r@ == escape_spec(text@),
{
    let n = text.unicode_len();
    let mut out = String::new();
    let mut i: usize = 0;
    while i < n
        invariant
            i <= n,
            n == text@.len(),
            out@ == escape_spec(text@.take(i as int)),
        decreases n - i,
    {
        let c = text.get_char(i);
        if c == '&' {
            out.append("&amp;");
        } else if c == '<' {
            out.append("&lt;");
        } else if c == '>' {
            out.append("&gt;");
        } else if c == '"' {
            out.append("&quot;");
        } else if c == '\'' {
            out.append("&apos;");
        } else {
            let piece = text.substring_char(i, i + 1);
            assert(piece@ =~= seq![text@[i as int]]);
            out.append(piece);
        }
        proof {
            let t = text@.take(i + 1 as int);
            lemma_escape_snoc(t);
            assert(t.drop_last() =~= text@.take(i as int));
            assert(t.last() == text@[i as int]);
        }
        i = i + 1;
    }
    proof {
        assert(text@.take(n as int) =~= text@);
    }
    out
}

/// Equality of two string slices, stated over their views.
pub fn str_eq(a: &str, b: &str) -> (r: bool)
    ensures
        r == (a@ == b@),
{
    let sa = String::from_str(a);
    let sb = String::from_str(b);
    sa == sb
}

/// Whether `p` is a prefix of `s`.
pub open spec fn has_prefix(s: Seq<char>, p: Seq<char>) -> bool {
    s.len() >= p.len() && s.take(p.len() as int) == p
}

/// Prefix test over the character views.
pub fn starts_with_str(s: &str, p: &str) -> (r: bool)
    ensures
        r == has_prefix(s@, p@),
{
    let n = s.unicode_len();
    let m = p.unicode_len();
    if n < m {
        return false;
    }
    let head = s.substring_char(0, m);
    str_eq(head, p)
}

/// Replacement of every occurrence of `pat`, leftmost first, without
/// rescanning the substituted text.
pub open spec fn replace_all_spec(s: Seq<char>, pat: Seq<char>, sub: Seq<char>) -> Seq<char>
    decreases s.len(),
{
    if pat.len() == 0 || s.len() < pat.len() {
        s
    } else if s.take(pat.len() as int) == pat {
        sub + replace_all_spec(s.skip(pat.len() as int), pat, sub)
    } else {
        seq![s[0]] + replace_all_spec(s.skip(1), pat, sub)
    }
}

/// Whether `pat` occurs in `s` starting at position `i`.
fn match_at(s: &str, pat: &str, i: usize) -> (r: bool)
    requires
        i + pat@.len() <= s@.len(),
        s@.len() <= usize::MAX,
    ensures
        r == (s@.skip(i as int).take(pat@.len() as int) == pat@),
{
    let m = pat.unicode_len();
    let piece = s.substring_char(i, i + m);
    proof {
        assert(piece@ =~= s@.skip(i as int).take(m as int));
    }
    str_eq(piece, pat)
}

/// Replace every occurrence of `pat` in `s` by `sub`.
pub fn replace_all(s: &str, pat: &str, sub: &str) -> (r: String)
    ensures
        r@ == replace_all_spec(s@, pat@, sub@),
{
    let n = s.unicode_len();
    let m = pat.unicode_len();
    if m == 0 {
        return String::from_str(s);
    }
    let mut out = String::new();
    let mut run: usize = 0;
    let mut i: usize = 0;
    proof {
        assert(s@.skip(0) =~= s@);
        assert(out@ + s@.subrange(0, 0) + replace_all_spec(s@, pat@, sub@) =~= replace_all_spec(
            s@,
            pat@,
            sub@,
        ));
    }
    while m <= n - i
        invariant
            run <= i <= n,
            n == s@.len(),
            m == pat@.len(),
            m >= 1,
            replace_all_spec(s@, pat@, sub@) == out@ + s@.subrange(run as int, i as int)
                + replace_all_spec(s@.skip(i as int), pat@, sub@),
        decreases n - i,
    {
        if match_at(s, pat, i) {
            let flush = s.substring_char(run, i);
            out.append(flush);
            out.append(sub);
            proof {
                assert(flush@ =~= s@.subrange(run as int, i as int));
                assert(s@.skip(i as int).skip(m as int) =~= s@.skip(i + m as int));
                assert(out@ + s@.subrange(i + m as int, i + m as int) =~= out@);
            }
            i = i + m;
            run = i;
        } else {
            proof {
                let t = s@.skip(i as int);
                assert(t.len() >= m);
                assert(seq![t[0]] + replace_all_spec(t.skip(1), pat@, sub@) == replace_all_spec(
                    t,
                    pat@,
                    sub@,
                ));
                assert(t.skip(1) =~= s@.skip(i + 1 as int));
                assert(s@.subrange(run as int, i as int) + seq![t[0]] =~= s@.subrange(
                    run as int,
                    i + 1 as int,
                ));
            }
            i = i + 1;
        }
    }
    let tail = s.substring_char(run, n);
    out.append(tail);
    proof {
        lemma_replace_short(s@.skip(i as int), pat@, sub@);
        assert(tail@ =~= s@.subrange(run as int, n as int));
        assert(s@.skip(i as int) =~= s@.subrange(i as int, n as int));
        assert(s@.subrange(run as int, i as int) + s@.subrange(i as int, n as int) =~= s@.subrange(
            run as int,
            n as int,
        ));
    }
    out
}

proof fn lemma_replace_short(s: Seq<char>, pat: Seq<char>, sub: Seq<char>)
    requires
        s.len() < pat.len() || pat.len() == 0,
    ensures
        replace_all_spec(s, pat, sub) == s,
{
}

/// A path with `/` separators rewritten to `\`, as the help compiler wants.
pub open spec fn windows_char(c: char) -> char {
    if c == '/' {
        '\\'
    } else {
        c
    }
}

/// The whole path in backslash form.
pub open spec fn to_windows_spec(s: Seq<char>) -> Seq<char> {
    s.map_values(|c: char| windows_char(c))
}

/// Rewrite `/` separators to `\`.
pub fn to_windows_path(path: &str) -> (r: String)
    ensures
        r@ == to_windows_spec(path@),
{
    let n = path.unicode_len();
    let mut out = String::new();
    let mut i: usize = 0;
    while i < n
        invariant
            i <= n,
            n == path@.len(),
            out@ == to_windows_spec(path@.take(i as int)),
        decreases n - i,
    {
        let c = path.get_char(i);
        if c == '/' {
            out.append("\\");
        } else {
            let piece = path.substring_char(i, i + 1);
            assert(piece@ =~= seq![path@[i as int]]);
            out.append(piece);
        }
        proof {
            assert(to_windows_spec(path@.take(i + 1 as int)) =~= to_windows_spec(
                path@.take(i as int),
            ) + seq![windows_char(path@[i as int])]);
            assert("\\"@ =~= seq!['\\']) by {
                reveal_strlit("\\");
            }
        }
        i = i + 1;
    }
    proof {
        assert(path@.take(n as int) =~= path@);
    }
    out
}

/// The parts joined with `sep` between neighbours.
pub open spec fn join_lines(parts: Seq<Seq<char>>, sep: Seq<char>) -> Seq<char>
    decreases parts.len(),
{
    if parts.len() == 0 {
        Seq::empty()
    } else if parts.len() == 1 {
        parts[0]
    } else {
        parts[0] + sep + join_lines(parts.skip(1), sep)
    }
}

/// Peeling the last part off a join.
pub proof fn lemma_join_lines_snoc(parts: Seq<Seq<char>>, sep: Seq<char>)
    requires
        parts.len() >= 2,
    ensures
        join_lines(parts, sep) == join_lines(parts.drop_last(), sep) + sep + parts.last(),
    decreases parts.len(),
{
    if parts.len() == 2 {
        assert(parts.skip(1) =~= seq![parts[1]]);
        assert(parts.drop_last() =~= seq![parts[0]]);
        assert(join_lines(parts.drop_last(), sep) + sep + parts.last() =~= parts[0] + sep
            + join_lines(parts.skip(1), sep));
    } else {
        lemma_join_lines_snoc(parts.skip(1), sep);
        assert(parts.skip(1).drop_last() =~= parts.drop_last().skip(1));
        assert(parts.skip(1).last() == parts.last());
        assert(join_lines(parts.drop_last(), sep) + sep + parts.last() =~= parts[0] + sep
            + join_lines(parts.skip(1), sep));
    }
}

/// Index of the last separator in `s`, or `-1` when there is none.
pub open spec fn last_sep_idx(s: Seq<char>) -> int
    decreases s.len(),
{
    if s.len() == 0 {
        -1
    } else if is_sep(s.last()) {
        s.len() - 1
    } else {
        last_sep_idx(s.drop_last())
    }
}

/// Index of the last dot in `s`, or `-1` when there is none.
pub open spec fn last_dot_idx(s: Seq<char>) -> int
    decreases s.len(),
{
    if s.len() == 0 {
        -1
    } else if s.last() == '.' {
        s.len() - 1
    } else {
        last_dot_idx(s.drop_last())
    }
}

/// A path has an extension when its final component holds a dot that is not
/// the component's first character.
pub open spec fn has_extension(s: Seq<char>) -> bool {
    last_dot_idx(s) >= last_sep_idx(s) + 2
}

/// The extension, when there is one.
pub open spec fn extension_spec(s: Seq<char>) -> Option<Seq<char>> {
    if has_extension(s) {
        Some(s.skip(last_dot_idx(s) + 1))
    } else {
        None
    }
}

/// The path with its extension replaced (or appended) by `ext`.
pub open spec fn with_extension_spec(s: Seq<char>, ext: Seq<char>) -> Seq<char> {
    if has_extension(s) {
        s.take(last_dot_idx(s)) + seq!['.'] + ext
    } else {
        s + seq!['.'] + ext
    }
}

/// Everything before the final component; `/x` keeps its root, a bare name
/// gives the empty path, and the empty path gives `.`.
pub open spec fn parent_spec(s: Seq<char>) -> Seq<char> {
    if s.len() == 0 {
        "."@
    } else if last_sep_idx(s) > 0 {
        s.take(last_sep_idx(s))
    } else if last_sep_idx(s) == 0 {
        s.take(1)
    } else {
        Seq::empty()
    }
}

/// A path is absolute when it starts with a separator or a drive prefix.
pub open spec fn is_absolute_spec(s: Seq<char>) -> bool {
    (s.len() >= 1 && is_sep(s[0])) || (s.len() >= 2 && s[1] == ':')
}

/// Joining `b` onto `a`: an absolute `b` replaces `a` wholesale.
pub open spec fn join_spec(a: Seq<char>, b: Seq<char>) -> Seq<char> {
    if is_absolute_spec(b) || a.len() == 0 {
        b
    } else if is_sep(a.last()) {
        a + b
    } else {
        a + seq!['/'] + b
    }
}

proof fn lemma_last_scan_step(s: Seq<char>, i: int)
    requires
        0 <= i < s.len(),
    ensures
        last_sep_idx(s.take(i + 1)) == if is_sep(s[i]) {
            i
        } else {
            last_sep_idx(s.take(i))
        },
        last_dot_idx(s.take(i + 1)) == if s[i] == '.' {
            i
        } else {
            last_dot_idx(s.take(i))
        },
{
    let t = s.take(i + 1);
    assert(t.last() == s[i]);
    assert(t.drop_last() =~= s.take(i));
}

/// The separator and dot scan over a whole string, as executable code.
/// Returns `(last_sep_idx, last_dot_idx)` coded with `-1` mapped to `None`.
fn scan_path(s: &str) -> (r: (Option<usize>, Option<usize>))
    ensures
        match r.0 {
            Some(k) => last_sep_idx(s@) == k as int && k < s@.len(),
            None => last_sep_idx(s@) == -1,
        },
        match r.1 {
            Some(k) => last_dot_idx(s@) == k as int && k < s@.len(),
            None => last_dot_idx(s@) == -1,
        },
{
    let n = s.unicode_len();
    let mut sep: Option<usize> = None;
    let mut dot: Option<usize> = None;
    let mut i: usize = 0;
    proof {
        assert(s@.take(0) =~= Seq::<char>::empty());
    }
    while i < n
        invariant
            i <= n,
            n == s@.len(),
            match sep {
                Some(k) => last_sep_idx(s@.take(i as int)) == k as int && k < i,
                None => last_sep_idx(s@.take(i as int)) == -1,
            },
            match dot {
                Some(k) => last_dot_idx(s@.take(i as int)) == k as int && k < i,
                None => last_dot_idx(s@.take(i as int)) == -1,
            },
        decreases n - i,
    {
        let c = s.get_char(i);
        proof {
            lemma_last_scan_step(s@, i as int);
        }
        if c == '/' || c == '\\' {
            sep = Some(i);
        }
        if c == '.' {
            dot = Some(i);
        }
        i = i + 1;
    }
    proof {
        assert(s@.take(n as int) =~= s@);
    }
    (sep, dot)
}

/// The extension of a path, when its final component has one.
pub fn extension_of(path: &str) -> (r: Option<String>)
    ensures
        match r {
            Some(e) => extension_spec(path@) == Some(e@),
            None => extension_spec(path@) is None,
        },
{
    let (sep, dot) = scan_path(path);
    let n = path.unicode_len();
    match dot {
        None => None,
        Some(d) => {
            let bound = match sep {
                None => d >= 1,
                Some(p) => d >= 2 && p <= d - 2,
            };
            if bound {
                let e = path.substring_char(d + 1, n);
                proof {
                    assert(e@ =~= path@.skip(last_dot_idx(path@) + 1));
                }
                Some(String::from_str(e))
            } else {
                None
            }
        },
    }
}

/// The path with its extension replaced (or appended) by `ext`.
pub fn with_extension(path: &str, ext: &str) -> (r: String)
    ensures
        r@ == with_extension_spec(path@, ext@),
{
    let (sep, dot) = scan_path(path);
    let mut out: String;
    let stem_end = match dot {
        None => None,
        Some(d) => {
            let bound = match sep {
                None => d >= 1,
                Some(p) => d >= 2 && p <= d - 2,
            };
            if bound {
                Some(d)
            } else {
                None
            }
        },
    };
    match stem_end {
        Some(d) => {
            let stem = path.substring_char(0, d);
            proof {
                assert(stem@ =~= path@.take(last_dot_idx(path@)));
            }
            out = String::from_str(stem);
        },
        None => {
            out = String::from_str(path);
        },
    }
    out.append(".");
    out.append(ext);
    proof {
        assert("."@ =~= seq!['.']) by {
            reveal_strlit(".");
        }
    }
    out
}

/// The parent directory of a path.
pub fn parent_of(path: &str) -> (r: String)
    ensures
        r@ == parent_spec(path@),
{
    let n = path.unicode_len();
    if n == 0 {
        return String::from_str(".");
    }
    let (sep, _) = scan_path(path);
    match sep {
        Some(k) => {
            if k > 0 {
                let p = path.substring_char(0, k);
                proof {
                    assert(p@ =~= path@.take(last_sep_idx(path@)));
                }
                String::from_str(p)
            } else {
                let p = path.substring_char(0, 1);
                proof {
                    assert(p@ =~= path@.take(1));
                }
                String::from_str(p)
            }
        },
        None => String::new(),
    }
}

/// Whether a path is absolute under the model above.
pub fn is_absolute_path(path: &str) -> (r: bool)
    ensures
        r == is_absolute_spec(path@),
{
    let n = path.unicode_len();
    if n >= 1 {
        let c = path.get_char(0);
        if c == '/' || c == '\\' {
            return true;
        }
    }
    if n >= 2 {
        let c = path.get_char(1);
        if c == ':' {
            return true;
        }
    }
    false
}

/// Join `b` onto `a` with a forward slash.
pub fn join_path(a: &str, b: &str) -> (r: String)
    ensures
        r@ == join_spec(a@, b@),
{
    let n = a.unicode_len();
    if is_absolute_path(b) || n == 0 {
        return String::from_str(b);
    }
    let mut out = String::from_str(a);
    let c = a.get_char(n - 1);
    if !(c == '/' || c == '\\') {
        out.append("/");
        proof {
            assert("/"@ =~= seq!['/']) by {
                reveal_strlit("/");
            }
        }
    }
    out.append(b);
    out
}

} // verus!
