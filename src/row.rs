use crate::text::{grapheme_clusters, graphemes_of, push_char, texts};
use vstd::prelude::*;
use vstd::seq_lib::lemma_flatten_concat;
use vstd::string::*;

verus! {

/// A line of text, indexed by grapheme cluster.
pub struct Row {
    string: String,
    len: usize,
}

impl View for Row {
    type V = Seq<char>;

    closed spec fn view(&self) -> Seq<char> {
        self.string@
    }
}

/// The clusters of `s` shown on screen: a tab becomes a single space.
pub open spec fn shown(g: Seq<char>) -> Seq<char> {
    if g == seq!['\t'] {
        seq![' ']
    } else {
        g
    }
}

/// The text of `s` with `c` inserted before cluster `at`, or at the end when
/// `at` is past the last cluster.
pub open spec fn inserted(s: Seq<char>, at: int, c: char) -> Seq<char> {
    let g = graphemes_of(s);
    if at >= g.len() {
        s.push(c)
    } else {
        g.take(at).flatten() + seq![c] + g.skip(at).flatten()
    }
}

/// The text of `s` without cluster `at`; `s` itself when there is none.
pub open spec fn deleted(s: Seq<char>, at: int) -> Seq<char> {
    let g = graphemes_of(s);
    if at >= g.len() {
        s
    } else {
        g.take(at).flatten() + g.skip(at + 1).flatten()
    }
}

/// `at` clamped to the number of clusters of `s`.
pub open spec fn clamped(s: Seq<char>, at: int) -> int {
    if at < graphemes_of(s).len() {
        at
    } else {
        graphemes_of(s).len() as int
    }
}

/// The clusters of `s` before `at`.
pub open spec fn head(s: Seq<char>, at: int) -> Seq<char> {
    graphemes_of(s).take(clamped(s, at)).flatten()
}

/// The clusters of `s` from `at` on.
pub open spec fn tail(s: Seq<char>, at: int) -> Seq<char> {
    graphemes_of(s).skip(clamped(s, at)).flatten()
}

/// The clusters `[start, end)` of `g`, both bounds clamped, as shown on screen.
pub open spec fn rendered_clusters(g: Seq<Seq<char>>, start: int, end: int) -> Seq<char> {
    let e = if end < g.len() { end } else { g.len() as int };
    let b = if start < e { start } else { e };
    g.subrange(b, e).map_values(|x: Seq<char>| shown(x)).flatten()
}

/// The clusters `[start, end)` of `s`, both bounds clamped, as shown on screen.
pub open spec fn rendered(s: Seq<char>, start: int, end: int) -> Seq<char> {
    rendered_clusters(graphemes_of(s), start, end)
}

proof fn lemma_flatten_extend(v: Seq<Seq<char>>, lo: int, hi: int)
    requires
        0 <= lo <= hi < v.len(),
    ensures
        v.subrange(lo, hi + 1).flatten() == v.subrange(lo, hi).flatten() + v[hi],
{
    assert(v.subrange(lo, hi + 1) =~= v.subrange(lo, hi).push(v[hi]));
    v.subrange(lo, hi).lemma_flatten_push(v[hi]);
}

/// The clusters `[lo, hi)` of `g`, joined.
pub fn join_range(g: &Vec<String>, lo: usize, hi: usize) -> (r: String)
    requires
        lo <= hi <= g@.len(),
    ensures
        r@ == texts(g@).subrange(lo as int, hi as int).flatten(),
{
    let mut r = String::new();
    let mut i: usize = lo;
    assert(texts(g@).subrange(lo as int, lo as int) =~= Seq::<Seq<char>>::empty());
    while i < hi
        invariant
            lo <= i <= hi <= g@.len(),
            r@ == texts(g@).subrange(lo as int, i as int).flatten(),
        decreases hi - i,
    {
        proof {
            lemma_flatten_extend(texts(g@), lo as int, i as int);
        }
        r.append(g[i].as_str());
        i = i + 1;
    }
    r
}

/// The clusters `[start, end)` of `g`, both bounds clamped, joined with each
/// tab shown as one space.
pub fn render_clusters(g: &Vec<String>, start: usize, end: usize) -> (r: String)
    ensures
        r@ == rendered_clusters(texts(g@), start as int, end as int),
{
    let end = if end < g.len() {
        end
    } else {
        g.len()
    };
    let start = if start < end {
        start
    } else {
        end
    };
    let ghost shown_of = |x: Seq<char>| shown(x);
    let mut result = String::new();
    let mut k: usize = start;
    assert(texts(g@).subrange(start as int, start as int).map_values(shown_of) =~= Seq::<Seq<char>>::empty());
    while k < end
        invariant
            start <= k <= end <= g@.len(),
            result@ == texts(g@).subrange(start as int, k as int).map_values(shown_of).flatten(),
            shown_of == (|x: Seq<char>| shown(x)),
        decreases end - k,
    {
        let piece = g[k].as_str();
        let is_tab = piece.unicode_len() == 1 && piece.get_char(0) == '\t';
        proof {
            let m = texts(g@).subrange(start as int, k as int).map_values(shown_of);
            assert(texts(g@).subrange(start as int, k as int + 1).map_values(shown_of)
                =~= m.push(shown(g@[k as int]@)));
            m.lemma_flatten_push(shown(g@[k as int]@));
            if is_tab {
                assert(g@[k as int]@ =~= seq!['\t']);
            } else {
                assert(g@[k as int]@ != seq!['\t']);
            }
        }
        if is_tab {
            push_char(&mut result, ' ');
            assert(seq![' '].len() == 1);
        } else {
            result.append(piece);
        }
        k = k + 1;
    }
    result
}

/// The clusters of `g` with `chr` inserted before cluster `at`, joined.
pub fn insert_into(g: &Vec<String>, at: usize, chr: char) -> (r: String)
    requires
        at <= g@.len(),
    ensures
        r@ == texts(g@).take(at as int).flatten() + seq![chr] + texts(g@).skip(at as int).flatten(),
{
    let mut result = join_range(g, 0, at);
    push_char(&mut result, chr);
    let remainder = join_range(g, at, g.len());
    result.append(remainder.as_str());
    result
}

/// The clusters of `g` without cluster `at`, joined.
pub fn remove_from(g: &Vec<String>, at: usize) -> (r: String)
    requires
        at < g@.len(),
    ensures
        r@ == texts(g@).take(at as int).flatten() + texts(g@).skip(at + 1).flatten(),
{
    let n = g.len();
    let mut result = join_range(g, 0, at);
    let remainder = join_range(g, at + 1, n);
    result.append(remainder.as_str());
    result
}

impl Row {
    /// The grapheme clusters of this line.
    pub open spec fn clusters(&self) -> Seq<Seq<char>> {
        graphemes_of(self@)
    }

    /// The cached length is the cluster count, and the clusters spell the text.
    pub closed spec fn wf(&self) -> bool {
        &&& self.len == graphemes_of(self.string@).len()
        &&& graphemes_of(self.string@).flatten() == self.string@
    }

    fn update_len(&mut self)
        ensures
            final(self).wf(),
            final(self)@ == old(self)@,
    {
        let g = grapheme_clusters(self.string.as_str());
        self.len = g.len();
    }

    /// A line holding `slice`.
    pub fn from(slice: &str) -> (r: Row)
        ensures
            r.wf(),
            r@ == slice@,
    {
        let mut row = Row { string: String::from_str(slice), len: 0 };
        row.update_len();
        row
    }

    /// The number of grapheme clusters.
    pub fn len(&self) -> (r: usize)
        requires
            self.wf(),
        ensures
            r == self.clusters().len(),
    {
        self.len
    }

    /// Whether the line has no cluster.
    pub fn is_empty(&self) -> (r: bool)
        requires
            self.wf(),
        ensures
            r == (self.clusters().len() == 0),
    {
        self.len == 0
    }

    /// The text of the line.
    pub fn as_str(&self) -> (r: &str)
        ensures
            r@ == self@,
    {
        self.string.as_str()
    }

    /// Inserts `chr` before cluster `at_pos`, or at the end when `at_pos` is
    /// not below the length.
    pub fn insert(&mut self, at_pos: usize, chr: char)
        requires
            old(self).wf(),
        ensures
            final(self).wf(),
            final(self)@ == inserted(old(self)@, at_pos as int, chr),
    {
        if at_pos >= self.len {
            push_char(&mut self.string, chr);
        } else {
            let g = grapheme_clusters(self.string.as_str());
            self.string = insert_into(&g, at_pos, chr);
        }
        self.update_len();
    }

    /// Removes cluster `at_pos`; nothing happens when there is none.
    pub fn delete(&mut self, at_pos: usize)
        requires
            old(self).wf(),
        ensures
            final(self).wf(),
            final(self)@ == deleted(old(self)@, at_pos as int),
    {
        if at_pos >= self.len {
            return;
        }
        let g = grapheme_clusters(self.string.as_str());
        self.string = remove_from(&g, at_pos);
        self.update_len();
    }

    /// Keeps the clusters before `at` and returns a line of the rest.
    pub fn split(&mut self, at: usize) -> (r: Row)
        requires
            old(self).wf(),
        ensures
            final(self).wf(),
            r.wf(),
            final(self)@ == head(old(self)@, at as int),
            r@ == tail(old(self)@, at as int),
    {
        let g = grapheme_clusters(self.string.as_str());
        let cut = if at < g.len() {
            at
        } else {
            g.len()
        };
        let prefix = join_range(&g, 0, cut);
        let suffix = join_range(&g, cut, g.len());
        proof {
            assert(texts(g@).subrange(0, cut as int) == graphemes_of(self@).take(cut as int));
            assert(texts(g@).subrange(cut as int, g@.len() as int) == graphemes_of(self@).skip(cut as int));
        }
        self.string = prefix;
        self.update_len();
        let mut rest = Row { string: suffix, len: 0 };
        rest.update_len();
        rest
    }

    /// Appends the text of `other` to this line.
    pub fn append(&mut self, other: &Row)
        requires
            old(self).wf(),
        ensures
            final(self).wf(),
            final(self)@ == old(self)@ + other@,
    {
        self.string.append(other.string.as_str());
        self.update_len();
    }

    /// The clusters `[start, end)`, clamped to the line, with each tab shown
    /// as one space.
    pub fn render(&self, start: usize, end: usize) -> (r: String)
        requires
            self.wf(),
        ensures
            r@ == rendered(self@, start as int, end as int),
    {
        let g = grapheme_clusters(self.string.as_str());
        render_clusters(&g, start, end)
    }
}

impl Default for Row {
    /// An empty line.
    fn default() -> (r: Row)
        ensures
            r.wf(),
            r@ == Seq::<char>::empty(),
    {
        let mut row = Row { string: String::new(), len: 0 };
        row.update_len();
        row
    }
}

/// Inserting a character before cluster `at` and then deleting cluster `at`
/// gives back the original line, whenever the character forms a cluster of
/// its own and leaves the clusters around it as they were.
pub proof fn lemma_insert_then_delete(row: Row, at: int, c: char)
    requires
        row.wf(),
        0 <= at <= row.clusters().len(),
    ensures
        row.clusters().take(at).push(seq![c]) + row.clusters().skip(at)
            == graphemes_of(inserted(row@, at, c)) ==> deleted(inserted(row@, at, c), at) == row@,
{
    let g = row.clusters();
    let t = inserted(row@, at, c);
    if g.take(at).push(seq![c]) + g.skip(at) == graphemes_of(t) {
        let h = graphemes_of(t);
        assert(h.take(at) =~= g.take(at));
        assert(h.skip(at + 1) =~= g.skip(at));
        lemma_flatten_concat(g.take(at), g.skip(at));
        assert(g.take(at) + g.skip(at) =~= g);
    }
}

/// Splitting a line at any index and appending the remainder to the kept
/// part gives back the original text.
pub proof fn lemma_split_then_append(row: Row, at: int)
    requires
        row.wf(),
        0 <= at,
    ensures
        head(row@, at) + tail(row@, at) == row@,
{
    let g = row.clusters();
    let k = clamped(row@, at);
    lemma_flatten_concat(g.take(k), g.skip(k));
    assert(g.take(k) + g.skip(k) =~= g);
}

} // verus!
