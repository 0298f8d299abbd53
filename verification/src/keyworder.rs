//! Finds rare keywords in a document set: any word appearing in only one
//! document of the set is worth indexing.

use crate::utilities::str_eq;
use vstd::prelude::*;
use vstd::seq_lib::group_to_multiset_ensures;
use vstd::string::StrSliceExecFns;
use vstd::string::StringExecFns;

verus! {

/// A name for the word tokens of a text, in order: the word-boundary runs
/// of word characters and hyphens; a function of the text alone.
pub uninterp spec fn words_of(text: Seq<char>) -> Seq<Seq<char>>;

/// Relies on `regex::Regex::find_iter` over the fixed word pattern.  The
/// pattern is a constant, so compiling it cannot fail.
#[verifier::external_body]
fn word_tokens(content: &str) -> (r: Vec<String>)
    ensures
        r.deep_view() == words_of(content@),
{
    let re = regex::Regex::new("\\b[\\w-]+\\b").unwrap();
    let mut out = Vec::new();
    for m in re.find_iter(content) {
        out.push(m.as_str().to_string());
    }
    out
}

/// The ghost shape of one keyword: the word and the documents it was seen
/// in, in the order they were processed.
#[verifier::ext_equal]
pub ghost struct KeywordModel {
    /// The word itself.
    pub keyword: Seq<char>,
    /// The documents it appears in.
    pub seen_in: Seq<Seq<char>>,
}

/// An extracted keyword and its properties.
pub struct KeywordProperties {
    /// The keyword itself.
    pub keyword: String,
    /// The documents it appears in.
    pub seen_in: Vec<String>,
}

impl View for KeywordProperties {
    type V = KeywordModel;

    open spec fn view(&self) -> KeywordModel {
        KeywordModel { keyword: self.keyword@, seen_in: self.seen_in.deep_view() }
    }
}

impl Clone for KeywordProperties {
    /// A copy with the same model.
    fn clone(&self) -> (r: Self)
        ensures
            r@ == self@,
    {
        let mut seen: Vec<String> = Vec::new();
        let n = self.seen_in.len();
        let mut i: usize = 0;
        while i < n
            invariant
                i <= n,
                n == self.seen_in.len(),
                seen@.len() == i,
                forall|t: int| 0 <= t < i ==> (#[trigger] seen@[t])@ == self.seen_in@[t]@,
            decreases n - i,
        {
            let s = self.seen_in[i].clone();
            seen.push(s);
            i = i + 1;
        }
        let r = KeywordProperties { keyword: self.keyword.clone(), seen_in: seen };
        proof {
            assert(r.seen_in.deep_view() =~= self.seen_in.deep_view());
            assert(r@ =~= self@);
        }
        r
    }
}

/// The models of a list of keywords.
pub open spec fn keyword_models(s: Seq<KeywordProperties>) -> Seq<KeywordModel> {
    s.map_values(|k: KeywordProperties| k@)
}

/// The position of `w` in the keyword list, or `-1` when it is absent.
pub open spec fn kw_index(kws: Seq<KeywordModel>, w: Seq<char>) -> int
    decreases kws,
{
    if kws.len() == 0 {
        -1
    } else if kws[0].keyword == w {
        0
    } else {
        let r = kw_index(kws.skip(1), w);
        if r < 0 {
            -1
        } else {
            r + 1
        }
    }
}

/// What `kw_index` finds is the first occurrence.
pub proof fn lemma_kw_index(kws: Seq<KeywordModel>, w: Seq<char>)
    ensures
        kw_index(kws, w) == -1 <==> (forall|t: int|
            0 <= t < kws.len() ==> (#[trigger] kws[t]).keyword != w),
        kw_index(kws, w) != -1 ==> 0 <= kw_index(kws, w) < kws.len() && kws[kw_index(
            kws,
            w,
        )].keyword == w && (forall|t: int| 0 <= t < kw_index(kws, w) ==> (#[trigger] kws[t]).keyword
            != w),
    decreases kws,
{
    if kws.len() > 0 {
        lemma_kw_index(kws.skip(1), w);
        let s = kws.skip(1);
        assert forall|t: int| 0 <= t < s.len() implies (#[trigger] s[t]) == kws[t + 1] by {}
        assert forall|t: int| 1 <= t < kws.len() implies (#[trigger] kws[t]) == s[t - 1] by {}
    }
}

/// One word recorded for one document: a known word gains the document, a
/// new word starts its own entry.
pub open spec fn record_word(
    kws: Seq<KeywordModel>,
    path: Seq<char>,
    w: Seq<char>,
) -> Seq<KeywordModel> {
    let i = kw_index(kws, w);
    if i < 0 {
        kws.push(KeywordModel { keyword: w, seen_in: seq![path] })
    } else {
        kws.update(i, KeywordModel { keyword: w, seen_in: kws[i].seen_in.push(path) })
    }
}

/// A document's words folded into the keyword list, skipping words already
/// seen in the same document.
pub open spec fn process_spec(
    kws: Seq<KeywordModel>,
    path: Seq<char>,
    words: Seq<Seq<char>>,
    seen: Set<Seq<char>>,
) -> Seq<KeywordModel>
    decreases words,
{
    if words.len() == 0 {
        kws
    } else if seen.contains(words[0]) {
        process_spec(kws, path, words.skip(1), seen)
    } else {
        process_spec(record_word(kws, path, words[0]), path, words.skip(1), seen.insert(words[0]))
    }
}

/// Finds rare keywords in a document set.
///
/// A keyword is visible when it appears in exactly one document.
pub struct Keyworder {
    keywords: Vec<KeywordProperties>,
}

impl View for Keyworder {
    type V = Seq<KeywordModel>;

    closed spec fn view(&self) -> Seq<KeywordModel> {
        keyword_models(self.keywords@)
    }
}

/// Whether a vector of strings holds `w`.
fn vec_contains_str(v: &Vec<String>, w: &str) -> (r: bool)
    ensures
        r == exists|t: int| 0 <= t < v@.len() && (#[trigger] v@[t])@ == w@,
{
    let n = v.len();
    let mut i: usize = 0;
    while i < n
        invariant
            i <= n,
            n == v@.len(),
            forall|t: int| 0 <= t < i ==> (#[trigger] v@[t])@ != w@,
        decreases n - i,
    {
        if str_eq(v[i].as_str(), w) {
            return true;
        }
        i = i + 1;
    }
    false
}

impl Keyworder {
    /// Create a new keyworder.
    pub fn new() -> (r: Self)
        ensures
            r@ =~= Seq::<KeywordModel>::empty(),
    {
        let r = Keyworder { keywords: Vec::new() };
        proof {
            assert(r@ =~= Seq::<KeywordModel>::empty());
        }
        r
    }

    /// The recorded keywords, in insertion order.
    pub fn keywords(&self) -> (r: &Vec<KeywordProperties>)
        ensures
            keyword_models(r@) == self@,
    {
        &self.keywords
    }

    /// The position of `w` in the keyword list.
    fn find_keyword(&self, w: &str) -> (r: Option<usize>)
        ensures
            match r {
                Some(idx) => kw_index(self@, w@) == idx as int,
                None => kw_index(self@, w@) == -1,
            },
    {
        let n = self.keywords.len();
        let mut i: usize = 0;
        proof {
            assert(self@.skip(0) =~= self@);
        }
        while i < n
            invariant
                i <= n,
                n == self.keywords@.len(),
                self@.len() == n,
                if kw_index(self@.skip(i as int), w@) == -1 {
                    kw_index(self@, w@) == -1
                } else {
                    kw_index(self@, w@) == kw_index(self@.skip(i as int), w@) + i
                },
            decreases n - i,
        {
            proof {
                assert(self@.skip(i as int)[0] == self@[i as int]);
                assert(self@.skip(i as int).skip(1) =~= self@.skip(i + 1));
            }
            if str_eq(self.keywords[i].keyword.as_str(), w) {
                return Some(i);
            }
            i = i + 1;
        }
        proof {
            assert(self@.skip(n as int).len() == 0);
        }
        None
    }

    /// Process a document and add its keywords to the index.  Each distinct
    /// word of the document records the document once.
    pub fn process(&mut self, path: &str, content: &str)
        ensures
            final(self)@ == process_spec(
                old(self)@,
                path@,
                words_of(content@),
                Set::<Seq<char>>::empty(),
            ),
    {
        let words = word_tokens(content);
        let ghost wv = words.deep_view();
        let ghost start = self@;
        let mut seen: Vec<String> = Vec::new();
        let ghost mut sset = Set::<Seq<char>>::empty();
        let n = words.len();
        let mut i: usize = 0;
        proof {
            assert(wv.skip(0) =~= wv);
        }
        while i < n
            invariant
                i <= n,
                n == words@.len(),
                wv == words.deep_view(),
                forall|x: Seq<char>|
                    #[trigger] sset.contains(x) <==> exists|t: int|
                        0 <= t < seen@.len() && (#[trigger] seen@[t])@ == x,
                process_spec(start, path@, wv, Set::<Seq<char>>::empty()) == process_spec(
                    self@,
                    path@,
                    wv.skip(i as int),
                    sset,
                ),
            decreases n - i,
        {
            proof {
                assert(wv.skip(i as int)[0] == wv[i as int]);
                assert(wv[i as int] == words@[i as int]@);
                assert(wv.skip(i as int).skip(1) =~= wv.skip(i + 1));
            }
            let w = &words[i];
            if !vec_contains_str(&seen, w.as_str()) {
                proof {
                    assert(!sset.contains(wv[i as int]));
                }
                let ghost before = self@;
                match self.find_keyword(w.as_str()) {
                    Some(idx) => {
                        proof {
                            lemma_kw_index(before, w@);
                        }
                        let ghost kb = self.keywords@;
                        let entry = self.keywords.remove(idx);
                        let mut entry = entry;
                        let ghost entry_seen = entry.seen_in.deep_view();
                        entry.seen_in.push(String::from_str(path));
                        proof {
                            assert(entry.seen_in.deep_view() =~= entry_seen.push(path@));
                        }
                        self.keywords.insert(idx, entry);
                        proof {
                            assert(self.keywords@ =~= kb.update(idx as int, entry)) by {
                                assert(self.keywords@ == kb.remove(idx as int).insert(
                                    idx as int,
                                    entry,
                                ));
                            }
                            assert(self@ =~= record_word(before, path@, wv[i as int]));
                        }
                    },
                    None => {
                        let entry = KeywordProperties {
                            keyword: w.clone(),
                            seen_in: vec![String::from_str(path)],
                        };
                        proof {
                            assert(entry@.seen_in =~= seq![path@]);
                        }
                        self.keywords.push(entry);
                        proof {
                            assert(self@ =~= before.push(entry@));
                            assert(self@ =~= record_word(before, path@, wv[i as int]));
                        }
                    },
                }
                let ws = w.clone();
                let ghost s0 = seen@;
                seen.push(ws);
                proof {
                    let sset0 = sset;
                    sset = sset.insert(wv[i as int]);
                    assert forall|x: Seq<char>| #[trigger]
                        sset.contains(x) implies exists|t: int|
                            0 <= t < seen@.len() && (#[trigger] seen@[t])@ == x by {
                        if x == wv[i as int] {
                            assert(seen@[s0.len() as int]@ == x);
                        } else {
                            assert(sset0.contains(x));
                            let t = choose|t: int| 0 <= t < s0.len() && (#[trigger] s0[t])@ == x;
                            assert(seen@[t]@ == x);
                        }
                    }
                    assert forall|x: Seq<char>|
                        (exists|t: int| 0 <= t < seen@.len() && (#[trigger] seen@[t])@ == x)
                            implies #[trigger] sset.contains(x) by {
                        let t = choose|t: int|
                            0 <= t < seen@.len() && (#[trigger] seen@[t])@ == x;
                        if t < s0.len() {
                            assert(s0[t]@ == x);
                            assert(sset0.contains(x));
                        } else {
                            assert(x == wv[i as int]);
                        }
                    }
                }
            }
            i = i + 1;
        }
        proof {
            assert(wv.skip(n as int).len() == 0);
        }
    }
}


/// Code-point order on character sequences.
pub open spec fn lex_le(a: Seq<char>, b: Seq<char>) -> bool
    decreases a.len(),
{
    if a.len() == 0 {
        true
    } else if b.len() == 0 {
        false
    } else if (a[0] as u32) < (b[0] as u32) {
        true
    } else if (a[0] as u32) > (b[0] as u32) {
        false
    } else {
        lex_le(a.skip(1), b.skip(1))
    }
}

/// Any two strings are ordered one way or the other.
pub proof fn lemma_lex_le_total(a: Seq<char>, b: Seq<char>)
    ensures
        lex_le(a, b) || lex_le(b, a),
    decreases a.len(),
{
    if a.len() > 0 && b.len() > 0 && (a[0] as u32) == (b[0] as u32) {
        lemma_lex_le_total(a.skip(1), b.skip(1));
    }
}

/// The order is transitive.
pub proof fn lemma_lex_le_trans(a: Seq<char>, b: Seq<char>, c: Seq<char>)
    requires
        lex_le(a, b),
        lex_le(b, c),
    ensures
        lex_le(a, c),
    decreases a.len(),
{
    if a.len() > 0 && b.len() > 0 && c.len() > 0 {
        if (a[0] as u32) == (b[0] as u32) && (b[0] as u32) == (c[0] as u32) {
            lemma_lex_le_trans(a.skip(1), b.skip(1), c.skip(1));
        }
    }
}

/// The keyword order used for the visible list.
pub open spec fn keyword_le(x: KeywordModel, y: KeywordModel) -> bool {
    lex_le(x.keyword, y.keyword)
}

/// A keyword list in ascending keyword order.
pub open spec fn kw_sorted(s: Seq<KeywordModel>) -> bool {
    forall|i: int, j: int|
        0 <= i < j < s.len() ==> keyword_le(#[trigger] s[i], #[trigger] s[j])
}

/// Code-point comparison of two strings.
fn str_lex_le(a: &str, b: &str) -> (r: bool)
    ensures
        r == lex_le(a@, b@),
{
    let n = a.unicode_len();
    let m = b.unicode_len();
    let mut i: usize = 0;
    proof {
        assert(a@.skip(0) =~= a@);
        assert(b@.skip(0) =~= b@);
    }
    while i < n && i < m
        invariant
            i <= n,
            i <= m,
            n == a@.len(),
            m == b@.len(),
            lex_le(a@, b@) == lex_le(a@.skip(i as int), b@.skip(i as int)),
        decreases n - i,
    {
        proof {
            assert(a@.skip(i as int)[0] == a@[i as int]);
            assert(b@.skip(i as int)[0] == b@[i as int]);
            assert(a@.skip(i as int).skip(1) =~= a@.skip(i + 1));
            assert(b@.skip(i as int).skip(1) =~= b@.skip(i + 1));
        }
        let ca = a.get_char(i) as u32;
        let cb = b.get_char(i) as u32;
        if ca < cb {
            return true;
        }
        if ca > cb {
            return false;
        }
        i = i + 1;
    }
    proof {
        if i >= n {
            assert(a@.skip(i as int).len() == 0);
        } else {
            assert(b@.skip(i as int).len() == 0);
            assert(a@.skip(i as int).len() > 0);
        }
    }
    n <= m
}

/// The visible entries of a keyword list: those seen in exactly one
/// document, in their original order.
pub open spec fn visible_of(kws: Seq<KeywordModel>) -> Seq<KeywordModel>
    decreases kws,
{
    if kws.len() == 0 {
        Seq::empty()
    } else {
        let rest = visible_of(kws.skip(1));
        if kws[0].seen_in.len() == 1 {
            seq![kws[0]] + rest
        } else {
            rest
        }
    }
}

/// Peeling the last entry off a visibility filter.
pub proof fn lemma_visible_of_snoc(kws: Seq<KeywordModel>)
    requires
        kws.len() > 0,
    ensures
        visible_of(kws) == if kws.last().seen_in.len() == 1 {
            visible_of(kws.drop_last()) + seq![kws.last()]
        } else {
            visible_of(kws.drop_last())
        },
    decreases kws,
{
    if kws.len() == 1 {
        assert(kws.skip(1) =~= Seq::<KeywordModel>::empty());
        assert(kws.drop_last() =~= Seq::<KeywordModel>::empty());
        if kws[0].seen_in.len() == 1 {
            assert(visible_of(kws.drop_last()) + seq![kws.last()] =~= seq![kws[0]] + visible_of(
                kws.skip(1),
            ));
        }
    } else {
        lemma_visible_of_snoc(kws.skip(1));
        assert(kws.skip(1).drop_last() =~= kws.drop_last().skip(1));
        assert(kws.skip(1).last() == kws.last());
        if kws.last().seen_in.len() == 1 {
            if kws[0].seen_in.len() == 1 {
                assert(visible_of(kws.drop_last()) + seq![kws.last()] =~= seq![kws[0]] + (visible_of(
                    kws.drop_last().skip(1),
                ) + seq![kws.last()]));
            }
        }
    }
}

/// Insert a keyword into a list sorted by `keyword_le`, keeping it sorted.
fn insert_sorted(v: &mut Vec<KeywordProperties>, x: KeywordProperties)
    requires
        kw_sorted(keyword_models(old(v)@)),
    ensures
        kw_sorted(keyword_models(final(v)@)),
        keyword_models(final(v)@).to_multiset() == keyword_models(old(v)@).to_multiset().insert(
            x@,
        ),
{
    broadcast use group_to_multiset_ensures;

    let n = v.len();
    let mut p: usize = 0;
    while p < n && str_lex_le(v[p].keyword.as_str(), x.keyword.as_str())
        invariant
            p <= n,
            n == v@.len(),
            forall|t: int| 0 <= t < p ==> keyword_le(#[trigger] keyword_models(v@)[t], x@),
        decreases n - p,
    {
        p = p + 1;
    }
    let ghost km_old = keyword_models(v@);
    let ghost xm = x@;
    let ghost pp = p as int;
    proof {
        if p < n {
            assert(!lex_le(km_old[pp].keyword, xm.keyword));
            lemma_lex_le_total(km_old[pp].keyword, xm.keyword);
        }
    }
    v.insert(p, x);
    proof {
        let km_new = keyword_models(v@);
        assert(km_new.len() == km_old.len() + 1);
        assert forall|t: int| 0 <= t < km_new.len() implies km_new[t] == (if t < pp {
            km_old[t]
        } else if t == pp {
            xm
        } else {
            km_old[t - 1]
        }) by {
            if t < pp {
                assert(v@[t] == old(v)@[t]);
            } else if t == pp {
                assert(v@[t] == x);
            } else {
                assert(v@[t] == old(v)@[t - 1]);
            }
        }
        assert forall|i: int, j: int|
            0 <= i < j < km_new.len() implies keyword_le(km_new[i], km_new[j]) by {
            if i < pp && j < pp {
                assert(keyword_le(km_old[i], km_old[j]));
            } else if i < pp && j == pp {
                assert(keyword_le(km_old[i], xm));
            } else if i < pp && j > pp {
                assert(keyword_le(km_old[i], km_old[j - 1]));
            } else if i == pp && j > pp {
                assert(lex_le(xm.keyword, km_old[pp].keyword));
                if j - 1 > pp {
                    assert(keyword_le(km_old[pp], km_old[j - 1]));
                    lemma_lex_le_trans(xm.keyword, km_old[pp].keyword, km_old[j - 1].keyword);
                }
            } else {
                assert(keyword_le(km_old[i - 1], km_old[j - 1]));
            }
        }
        assert(kw_sorted(km_new));
        assert(km_new.remove(pp) =~= km_old);
        assert(km_new.remove(pp).to_multiset() =~= km_new.to_multiset().remove(km_new[pp]));
        assert(km_new[pp] == xm);
        assert(km_new.to_multiset().contains(xm)) by {
            assert(km_new.contains(xm)) by {
                assert(km_new[pp] == xm);
            }
        }
        assert(km_new.to_multiset() =~= km_old.to_multiset().insert(xm));
    }
}

impl Keyworder {
    /// The keywords visible within the threshold: those seen in exactly one
    /// document, sorted by keyword.
    pub fn visible_keywords(&self) -> (r: Vec<KeywordProperties>)
        ensures
            keyword_models(r@).to_multiset() == visible_of(self@).to_multiset(),
            kw_sorted(keyword_models(r@)),
    {
        broadcast use group_to_multiset_ensures;

        let mut out: Vec<KeywordProperties> = Vec::new();
        let n = self.keywords.len();
        let mut i: usize = 0;
        proof {
            assert(self@.take(0) =~= Seq::<KeywordModel>::empty());
            assert(keyword_models(out@) =~= Seq::<KeywordModel>::empty());
        }
        while i < n
            invariant
                i <= n,
                n == self.keywords@.len(),
                self@.len() == n,
                self@ == keyword_models(self.keywords@),
                keyword_models(out@).to_multiset() == visible_of(self@.take(i as int)).to_multiset(),
                kw_sorted(keyword_models(out@)),
            decreases n - i,
        {
            proof {
                lemma_visible_of_snoc(self@.take(i + 1));
                assert(self@.take(i + 1).drop_last() =~= self@.take(i as int));
                assert(self@.take(i + 1).last() == self@[i as int]);
                assert(self@[i as int] == self.keywords@[i as int]@);
            }
            if self.keywords[i].seen_in.len() == 1 {
                let entry = self.keywords[i].clone();
                insert_sorted(&mut out, entry);
                proof {
                    let vis = visible_of(self@.take(i as int));
                    assert(visible_of(self@.take(i + 1)) =~= vis + seq![self@[i as int]]);
                    assert(vis + seq![self@[i as int]] =~= vis.push(self@[i as int]));
                    vis.to_multiset_ensures();
                    assert(vis.push(self@[i as int]).to_multiset() =~= vis.to_multiset().insert(
                        self@[i as int],
                    ));
                }
            }
            i = i + 1;
        }
        proof {
            assert(self@.take(n as int) =~= self@);
        }
        out
    }
}


/// The documents recorded for `w`: the seen-in list of its entry, or empty
/// when there is none.
pub open spec fn docs_of(kws: Seq<KeywordModel>, w: Seq<char>) -> Seq<Seq<char>> {
    if kw_index(kws, w) >= 0 {
        kws[kw_index(kws, w)].seen_in
    } else {
        Seq::empty()
    }
}

/// A keyword list without repeated keywords.
pub open spec fn kws_wf(kws: Seq<KeywordModel>) -> bool {
    forall|i: int, j: int|
        0 <= i < j < kws.len() ==> (#[trigger] kws[i]).keyword != (#[trigger] kws[j]).keyword
}

/// `kw_index` only looks at the keywords.
proof fn lemma_kw_index_same_keys(a: Seq<KeywordModel>, b: Seq<KeywordModel>, w: Seq<char>)
    requires
        a.len() == b.len(),
        forall|t: int| 0 <= t < a.len() ==> (#[trigger] a[t]).keyword == (#[trigger] b[t]).keyword,
    ensures
        kw_index(a, w) == kw_index(b, w),
    decreases a,
{
    if a.len() > 0 {
        lemma_kw_index_same_keys(a.skip(1), b.skip(1), w);
        assert(forall|t: int|
            0 <= t < a.skip(1).len() ==> (#[trigger] a.skip(1)[t]) == a[t + 1]);
        assert(forall|t: int|
            0 <= t < b.skip(1).len() ==> (#[trigger] b.skip(1)[t]) == b[t + 1]);
    }
}

/// `kw_index` after appending one entry.
proof fn lemma_kw_index_push(kws: Seq<KeywordModel>, e: KeywordModel, w: Seq<char>)
    ensures
        kw_index(kws.push(e), w) == if kw_index(kws, w) >= 0 {
            kw_index(kws, w)
        } else if e.keyword == w {
            kws.len() as int
        } else {
            -1
        },
    decreases kws,
{
    let p = kws.push(e);
    if kws.len() == 0 {
        assert(kw_index(kws, w) == -1);
        assert(p[0] == e);
        assert(p.skip(1) =~= Seq::<KeywordModel>::empty());
        assert(kw_index(p.skip(1), w) == -1);
        if e.keyword == w {
            assert(kw_index(p, w) == 0);
        } else {
            assert(kw_index(p, w) == -1);
        }
    } else {
        lemma_kw_index_push(kws.skip(1), e, w);
        assert(p[0] == kws[0]);
        assert(p.skip(1) =~= kws.skip(1).push(e));
        if kws[0].keyword == w {
            assert(kw_index(p, w) == 0);
            assert(kw_index(kws, w) == 0);
        } else {
            let r0 = kw_index(kws.skip(1), w);
            let rp = kw_index(p.skip(1), w);
            assert(kw_index(kws, w) == (if r0 < 0 {
                -1int
            } else {
                r0 + 1
            }));
            assert(kw_index(p, w) == (if rp < 0 {
                -1int
            } else {
                rp + 1
            }));
        }
    }
}

/// What recording one word does to every word's documents.
proof fn lemma_record_word(kws: Seq<KeywordModel>, path: Seq<char>, w: Seq<char>)
    ensures
        forall|u: Seq<char>|
            #[trigger] docs_of(record_word(kws, path, w), u) == if u == w {
                docs_of(kws, u).push(path)
            } else {
                docs_of(kws, u)
            },
        forall|u: Seq<char>|
            #[trigger] kw_index(record_word(kws, path, w), u) >= 0 <==> (kw_index(kws, u) >= 0 || u
                == w),
        kws_wf(kws) ==> kws_wf(record_word(kws, path, w)),
        record_word(kws, path, w).len() >= kws.len(),
{
    let r = record_word(kws, path, w);
    let i = kw_index(kws, w);
    lemma_kw_index(kws, w);
    if i < 0 {
        let e = KeywordModel { keyword: w, seen_in: seq![path] };
        assert forall|u: Seq<char>| #[trigger] docs_of(r, u) == (if u == w {
            docs_of(kws, u).push(path)
        } else {
            docs_of(kws, u)
        }) by {
            lemma_kw_index_push(kws, e, u);
            lemma_kw_index(kws, u);
            if u == w {
                assert(kw_index(r, u) == kws.len());
                assert(r[kws.len() as int] == e);
                assert(docs_of(kws, u) =~= Seq::<Seq<char>>::empty());
                assert(e.seen_in =~= docs_of(kws, u).push(path));
            } else {
                if kw_index(kws, u) >= 0 {
                    assert(r[kw_index(kws, u)] == kws[kw_index(kws, u)]);
                }
            }
        }
        assert forall|u: Seq<char>|
            #[trigger] kw_index(r, u) >= 0 <==> (kw_index(kws, u) >= 0 || u == w) by {
            lemma_kw_index_push(kws, e, u);
        }
        if kws_wf(kws) {
            assert forall|s: int, t: int|
                0 <= s < t < r.len() implies (#[trigger] r[s]).keyword != (
            #[trigger] r[t]).keyword by {
                if t == r.len() - 1 {
                    assert(r[s] == kws[s]);
                    assert(kws[s].keyword != w);
                }
            }
        }
    } else {
        let e = KeywordModel { keyword: w, seen_in: kws[i].seen_in.push(path) };
        assert(r == kws.update(i, e));
        assert(r.len() == kws.len());
        assert forall|t: int|
            0 <= t < r.len() implies (#[trigger] r[t]).keyword == (#[trigger] kws[t]).keyword by {
            if t != i {
                assert(r[t] == kws[t]);
            }
        }
        assert forall|u: Seq<char>| #[trigger] docs_of(r, u) == (if u == w {
            docs_of(kws, u).push(path)
        } else {
            docs_of(kws, u)
        }) by {
            lemma_kw_index_same_keys(kws, r, u);
            lemma_kw_index(kws, u);
            if u == w {
                assert(kw_index(r, u) == i);
                assert(r[i] == e);
            } else {
                if kw_index(kws, u) >= 0 {
                    assert(kw_index(kws, u) != i);
                    assert(r[kw_index(kws, u)] == kws[kw_index(kws, u)]);
                }
            }
        }
        assert forall|u: Seq<char>|
            #[trigger] kw_index(r, u) >= 0 <==> (kw_index(kws, u) >= 0 || u == w) by {
            lemma_kw_index_same_keys(kws, r, u);
        }
        if kws_wf(kws) {
            assert forall|s: int, t: int|
                0 <= s < t < r.len() implies (#[trigger] r[s]).keyword != (
            #[trigger] r[t]).keyword by {
                assert(r[s].keyword == kws[s].keyword);
                assert(r[t].keyword == kws[t].keyword);
            }
        }
    }
}

/// What processing a document does to every word's documents: each word of
/// the document that was not seen before records the document once.
pub proof fn lemma_process_docs(
    kws: Seq<KeywordModel>,
    path: Seq<char>,
    words: Seq<Seq<char>>,
    seen: Set<Seq<char>>,
)
    ensures
        forall|u: Seq<char>|
            #[trigger] docs_of(process_spec(kws, path, words, seen), u) == if words.contains(u)
                && !seen.contains(u) {
                docs_of(kws, u).push(path)
            } else {
                docs_of(kws, u)
            },
        forall|u: Seq<char>|
            #[trigger] kw_index(process_spec(kws, path, words, seen), u) >= 0 <==> (kw_index(
                kws,
                u,
            ) >= 0 || (words.contains(u) && !seen.contains(u))),
        kws_wf(kws) ==> kws_wf(process_spec(kws, path, words, seen)),
    decreases words,
{
    let r = process_spec(kws, path, words, seen);
    if words.len() == 0 {
        assert(forall|u: Seq<char>| !(#[trigger] words.contains(u)));
    } else {
        let w0 = words[0];
        assert(words.contains(w0)) by {
            assert(words[0] == w0);
        }
        if seen.contains(w0) {
            lemma_process_docs(kws, path, words.skip(1), seen);
            assert(r == process_spec(kws, path, words.skip(1), seen));
            assert forall|u: Seq<char>| #[trigger] docs_of(r, u) == (if words.contains(u)
                && !seen.contains(u) {
                docs_of(kws, u).push(path)
            } else {
                docs_of(kws, u)
            }) by {
                if words.contains(u) && !seen.contains(u) {
                    let t = choose|t: int|
                        0 <= t < words.len() && #[trigger] words[t] == u;
                    assert(u != w0);
                    assert(words[0] == w0);
                    assert(t != 0);
                    assert(words.skip(1)[t - 1] == u);
                    assert(words.skip(1).contains(u));
                    assert(docs_of(r, u) == docs_of(kws, u).push(path));
                } else {
                    if words.skip(1).contains(u) && !seen.contains(u) {
                        let t = choose|t: int|
                            0 <= t < words.skip(1).len() && #[trigger] words.skip(1)[t] == u;
                        assert(words[t + 1] == u);
                        assert(words.contains(u));
                        assert(false);
                    }
                    assert(docs_of(r, u) == docs_of(kws, u));
                }
            }
            assert forall|u: Seq<char>|
                #[trigger] kw_index(r, u) >= 0 <==> (kw_index(kws, u) >= 0 || (words.contains(u)
                    && !seen.contains(u))) by {
                if words.contains(u) && !seen.contains(u) {
                    let t = choose|t: int|
                        0 <= t < words.len() && #[trigger] words[t] == u;
                    assert(u != w0);
                    assert(words[0] == w0);
                    assert(t != 0);
                    assert(words.skip(1)[t - 1] == u);
                    assert(words.skip(1).contains(u));
                } else {
                    if words.skip(1).contains(u) && !seen.contains(u) {
                        let t = choose|t: int|
                            0 <= t < words.skip(1).len() && #[trigger] words.skip(1)[t] == u;
                        assert(words[t + 1] == u);
                        assert(words.contains(u));
                        assert(false);
                    }
                }
            }
        } else {
            let k2 = record_word(kws, path, w0);
            lemma_record_word(kws, path, w0);
            lemma_process_docs(k2, path, words.skip(1), seen.insert(w0));
            assert(r == process_spec(k2, path, words.skip(1), seen.insert(w0)));
            assert forall|u: Seq<char>| #[trigger] docs_of(r, u) == (if words.contains(u)
                && !seen.contains(u) {
                docs_of(kws, u).push(path)
            } else {
                docs_of(kws, u)
            }) by {
                if u == w0 {
                    assert(seen.insert(w0).contains(u));
                    assert(docs_of(r, u) == docs_of(k2, u));
                    assert(docs_of(k2, u) == docs_of(kws, u).push(path));
                } else {
                    assert(docs_of(k2, u) == docs_of(kws, u));
                    if words.contains(u) && !seen.contains(u) {
                        let t = choose|t: int| 0 <= t < words.len() && words[t] == u;
                        assert(words.skip(1)[t - 1] == u);
                        assert(words.skip(1).contains(u));
                        assert(!seen.insert(w0).contains(u));
                    } else {
                        if words.skip(1).contains(u) && !seen.insert(w0).contains(u) {
                            let t = choose|t: int|
                                0 <= t < words.skip(1).len() && words.skip(1)[t] == u;
                            assert(words[t + 1] == u);
                            assert(words.contains(u));
                        }
                    }
                }
            }
            assert forall|u: Seq<char>|
                #[trigger] kw_index(r, u) >= 0 <==> (kw_index(kws, u) >= 0 || (words.contains(u)
                    && !seen.contains(u))) by {
                if u == w0 {
                    assert(kw_index(k2, u) >= 0);
                    assert(kw_index(r, u) >= 0);
                } else {
                    if words.contains(u) && !seen.contains(u) {
                        let t = choose|t: int| 0 <= t < words.len() && words[t] == u;
                        assert(words.skip(1)[t - 1] == u);
                    } else {
                        if words.skip(1).contains(u) && !seen.insert(w0).contains(u) {
                            let t = choose|t: int|
                                0 <= t < words.skip(1).len() && words.skip(1)[t] == u;
                            assert(words[t + 1] == u);
                        }
                    }
                }
            }
        }
    }
}

/// Two documents that share no words: after processing both into an empty
/// keyworder, every word of either document is visible, that is, its entry
/// was seen in exactly one document.
pub proof fn lemma_disjoint_words_all_visible(
    a_path: Seq<char>,
    b_path: Seq<char>,
    a_words: Seq<Seq<char>>,
    b_words: Seq<Seq<char>>,
)
    requires
        forall|w: Seq<char>| a_words.contains(w) ==> !(#[trigger] b_words.contains(w)),
    ensures
        ({
            let k1 = process_spec(Seq::empty(), a_path, a_words, Set::empty());
            let k2 = process_spec(k1, b_path, b_words, Set::empty());
            forall|w: Seq<char>|
                #![trigger a_words.contains(w)]
                #![trigger b_words.contains(w)]
                a_words.contains(w) || b_words.contains(w) ==> kw_index(k2, w) >= 0 && k2[kw_index(
                    k2,
                    w,
                )].seen_in.len() == 1
        }),
{
    let k1 = process_spec(Seq::empty(), a_path, a_words, Set::empty());
    let k2 = process_spec(k1, b_path, b_words, Set::empty());
    lemma_process_docs(Seq::empty(), a_path, a_words, Set::empty());
    lemma_process_docs(k1, b_path, b_words, Set::empty());
    assert forall|w: Seq<char>|
        a_words.contains(w) || b_words.contains(w) implies kw_index(k2, w) >= 0 && k2[kw_index(
        k2,
        w,
    )].seen_in.len() == 1 by {
        lemma_kw_index(Seq::<KeywordModel>::empty(), w);
        assert(docs_of(Seq::<KeywordModel>::empty(), w) =~= Seq::<Seq<char>>::empty());
        if a_words.contains(w) {
            assert(docs_of(k1, w) =~= seq![a_path]);
            assert(!b_words.contains(w));
            assert(docs_of(k2, w) == docs_of(k1, w));
        } else {
            assert(docs_of(k1, w) =~= Seq::<Seq<char>>::empty());
            assert(docs_of(k2, w) =~= seq![b_path]);
        }
        assert(docs_of(k2, w).len() == 1);
        assert(kw_index(k2, w) >= 0);
    }
}

/// Two documents with identical word sets: after processing both into an
/// empty keyworder, no entry is visible — every entry was seen in both.
pub proof fn lemma_identical_words_none_visible(
    a_path: Seq<char>,
    b_path: Seq<char>,
    a_words: Seq<Seq<char>>,
    b_words: Seq<Seq<char>>,
)
    requires
        forall|w: Seq<char>| #[trigger] a_words.contains(w) <==> #[trigger] b_words.contains(w),
    ensures
        ({
            let k1 = process_spec(Seq::empty(), a_path, a_words, Set::empty());
            let k2 = process_spec(k1, b_path, b_words, Set::empty());
            forall|j: int| 0 <= j < k2.len() ==> (#[trigger] k2[j]).seen_in.len() == 2
        }),
{
    let k1 = process_spec(Seq::empty(), a_path, a_words, Set::empty());
    let k2 = process_spec(k1, b_path, b_words, Set::empty());
    lemma_process_docs(Seq::empty(), a_path, a_words, Set::empty());
    lemma_process_docs(k1, b_path, b_words, Set::empty());
    assert(kws_wf(Seq::<KeywordModel>::empty()));
    assert forall|j: int| 0 <= j < k2.len() implies (#[trigger] k2[j]).seen_in.len() == 2 by {
        let w = k2[j].keyword;
        lemma_kw_index(k2, w);
        assert(kw_index(k2, w) >= 0);
        assert(kw_index(k2, w) == j) by {
            if kw_index(k2, w) != j {
                assert(kws_wf(k2));
                assert(k2[kw_index(k2, w)].keyword == k2[j].keyword);
            }
        }
        lemma_kw_index(Seq::<KeywordModel>::empty(), w);
        assert(kw_index(Seq::<KeywordModel>::empty(), w) == -1);
        assert(a_words.contains(w) || b_words.contains(w));
        assert(a_words.contains(w) && b_words.contains(w));
        assert(docs_of(Seq::<KeywordModel>::empty(), w) =~= Seq::<Seq<char>>::empty());
        assert(docs_of(k1, w) =~= seq![a_path]);
        assert(docs_of(k2, w) =~= seq![a_path, b_path]) by {
            assert(docs_of(k2, w) == docs_of(k1, w).push(b_path));
        }
        assert(k2[j].seen_in == docs_of(k2, w));
    }
}

} // verus!
