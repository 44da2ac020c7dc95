use crate::editor::Position;
use crate::row::{deleted, head, inserted, tail, Row};
use crate::text::{chars_of, graphemes_of, push_char};
use vstd::prelude::*;
use vstd::string::*;

verus! {

/// The lines of `s` after the partial line `cur`: each newline ends a line,
/// and a final newline starts no further line.
pub open spec fn lines_from(s: Seq<char>, cur: Seq<char>) -> Seq<Seq<char>>
    decreases s.len(),
{
    if s.len() == 0 {
        if cur.len() == 0 {
            seq![]
        } else {
            seq![cur]
        }
    } else if s[0] == '\n' {
        seq![cur] + lines_from(s.drop_first(), seq![])
    } else {
        lines_from(s.drop_first(), cur.push(s[0]))
    }
}

/// The newline-delimited lines of a text.
pub open spec fn lines_of(s: Seq<char>) -> Seq<Seq<char>> {
    lines_from(s, seq![])
}

/// A text holding each line followed by one newline.
pub open spec fn serialized(lines: Seq<Seq<char>>) -> Seq<char> {
    lines.map_values(|l: Seq<char>| l.push('\n')).flatten()
}

/// Whether no line holds a newline.
pub open spec fn no_newlines(lines: Seq<Seq<char>>) -> bool {
    forall|i: int, j: int| 0 <= i < lines.len() && 0 <= j < lines[i].len() ==> lines[i][j] != '\n'
}

/// The lines after a line break at column `x` of line `y`.
pub open spec fn after_newline(lines: Seq<Seq<char>>, x: int, y: int) -> Seq<Seq<char>> {
    if y > lines.len() {
        lines
    } else if y == lines.len() {
        lines.push(seq![])
    } else {
        lines.update(y, head(lines[y], x)).insert(y + 1, tail(lines[y], x))
    }
}

/// The lines after typing `c` at column `x` of line `y`.
pub open spec fn after_insert(lines: Seq<Seq<char>>, x: int, y: int, c: char) -> Seq<Seq<char>> {
    if c == '\n' {
        after_newline(lines, x, y)
    } else if y == lines.len() {
        lines.push(inserted(seq![], 0, c))
    } else if y < lines.len() {
        lines.update(y, inserted(lines[y], x, c))
    } else {
        lines
    }
}

/// The lines after a forward delete at column `x` of line `y`: at the end of
/// a line that has a successor, the two lines merge.
pub open spec fn after_delete(lines: Seq<Seq<char>>, x: int, y: int) -> Seq<Seq<char>> {
    if y >= lines.len() {
        lines
    } else if x == graphemes_of(lines[y]).len() && y + 1 < lines.len() {
        lines.update(y, lines[y] + lines[y + 1]).remove(y + 1)
    } else {
        lines.update(y, deleted(lines[y], x))
    }
}

/// The lines of a text file and the path it belongs to, if any.
pub struct Document {
    rows: Vec<Row>,
    pub filename: Option<String>,
}

impl View for Document {
    type V = Seq<Seq<char>>;

    closed spec fn view(&self) -> Seq<Seq<char>> {
        self.rows@.map_values(|r: Row| r@)
    }
}

impl Document {
    /// Every line is well formed.
    pub closed spec fn wf(&self) -> bool {
        forall|i: int| 0 <= i < self.rows@.len() ==> (#[trigger] self.rows@[i]).wf()
    }

    /// The path the document belongs to.
    pub closed spec fn file(&self) -> Option<String> {
        self.filename
    }

    /// The path the document belongs to, if any.
    pub fn name(&self) -> (r: Option<&str>)
        ensures
            r.is_some() == self.file().is_some(),
            r matches Some(n) ==> n@ == self.file().unwrap()@,
    {
        match &self.filename {
            Some(n) => Some(n.as_str()),
            None => None,
        }
    }

    /// Line `index`, if there is one.
    pub fn row(&self, index: usize) -> (r: Option<&Row>)
        requires
            self.wf(),
        ensures
            index < self@.len() <==> r.is_some(),
            r matches Some(row) ==> row.wf() && row@ == self@[index as int],
    {
        if index < self.rows.len() {
            Some(&self.rows[index])
        } else {
            None
        }
    }

    /// Whether there is no line.
    pub fn is_empty(&self) -> (r: bool)
        ensures
            r == (self@.len() == 0),
    {
        self.rows.len() == 0
    }

    /// The number of lines.
    pub fn len(&self) -> (r: usize)
        ensures
            r == self@.len(),
    {
        self.rows.len()
    }

    /// Types `chr` at `at_pos`: a newline breaks the line; one line past the
    /// last, a new line is started; further down nothing happens.
    pub fn insert(&mut self, at_pos: &Position, chr: char)
        requires
            old(self).wf(),
        ensures
            final(self).wf(),
            final(self)@ == after_insert(old(self)@, at_pos.x as int, at_pos.y as int, chr),
            final(self).file() == old(self).file(),
    {
        if chr == '\n' {
            self.insert_newline(at_pos);
            return;
        }
        let ghost before = self@;
        if at_pos.y == self.rows.len() {
            let mut row = Row::default();
            row.insert(0, chr);
            self.rows.push(row);
            assert(self@ =~= after_insert(before, at_pos.x as int, at_pos.y as int, chr));
        } else if at_pos.y < self.rows.len() {
            let mut row = self.rows.remove(at_pos.y);
            row.insert(at_pos.x, chr);
            self.rows.insert(at_pos.y, row);
            assert(self@ =~= after_insert(before, at_pos.x as int, at_pos.y as int, chr));
        }
    }

    /// Deletes the cluster at `at_pos`; at the end of a line that has a
    /// successor, the successor is joined onto it.
    pub fn delete(&mut self, at_pos: &Position)
        requires
            old(self).wf(),
        ensures
            final(self).wf(),
            final(self)@ == after_delete(old(self)@, at_pos.x as int, at_pos.y as int),
            final(self).file() == old(self).file(),
    {
        let ghost before = self@;
        let len = self.rows.len();
        if at_pos.y >= len {
            return;
        }
        let mut row = self.rows.remove(at_pos.y);
        if at_pos.x == row.len() && at_pos.y < len - 1 {
            let next_row = self.rows.remove(at_pos.y);
            row.append(&next_row);
        } else {
            row.delete(at_pos.x);
        }
        self.rows.insert(at_pos.y, row);
        assert(self@ =~= after_delete(before, at_pos.x as int, at_pos.y as int));
    }

    /// Breaks line `at_pos.y` at column `at_pos.x`; one line past the last, a
    /// new empty line is started; further down nothing happens.
    pub fn insert_newline(&mut self, at_pos: &Position)
        requires
            old(self).wf(),
        ensures
            final(self).wf(),
            final(self)@ == after_newline(old(self)@, at_pos.x as int, at_pos.y as int),
            final(self).file() == old(self).file(),
    {
        let ghost before = self@;
        if at_pos.y > self.rows.len() {
            return;
        }
        if at_pos.y == self.rows.len() {
            self.rows.push(Row::default());
            assert(self@ =~= after_newline(before, at_pos.x as int, at_pos.y as int));
            return;
        }
        let mut row = self.rows.remove(at_pos.y);
        let new_row = row.split(at_pos.x);
        self.rows.insert(at_pos.y, row);
        self.rows.insert(at_pos.y + 1, new_row);
        assert(self@ =~= after_newline(before, at_pos.x as int, at_pos.y as int));
    }
}

impl Document {
    /// The document whose lines are those of `text`, belonging to `filename`.
    pub fn from_text(text: &str, filename: Option<String>) -> (r: Document)
        ensures
            r.wf(),
            r@ == lines_of(text@),
            r.file() == filename,
    {
        let chars = chars_of(text);
        let mut rows: Vec<Row> = Vec::new();
        let mut cur = String::new();
        let mut i: usize = 0;
        assert(text@.skip(0) =~= text@);
        while i < chars.len()
            invariant
                i <= chars@.len(),
                chars@ == text@,
                forall|k: int| 0 <= k < rows@.len() ==> (#[trigger] rows@[k]).wf(),
                lines_of(text@) == rows@.map_values(|r: Row| r@) + lines_from(text@.skip(i as int), cur@),
            decreases chars@.len() - i,
        {
            let ghost rest = text@.skip(i as int);
            assert(rest.drop_first() =~= text@.skip(i + 1));
            assert(rest[0] == chars@[i as int]);
            if chars[i] == '\n' {
                let row = Row::from(cur.as_str());
                let ghost old_rows = rows@;
                rows.push(row);
                assert(rows@.map_values(|r: Row| r@) =~= old_rows.map_values(|r: Row| r@) + seq![cur@]);
                cur = String::new();
            } else {
                push_char(&mut cur, chars[i]);
            }
            i = i + 1;
        }
        assert(text@.skip(i as int) =~= Seq::<char>::empty());
        if !cur.as_str().is_empty() {
            let row = Row::from(cur.as_str());
            let ghost old_rows = rows@;
            rows.push(row);
            assert(rows@.map_values(|r: Row| r@) =~= old_rows.map_values(|r: Row| r@) + seq![cur@]);
        } else {
            assert(rows@.map_values(|r: Row| r@) + Seq::<Seq<char>>::empty() =~= rows@.map_values(|r: Row| r@));
        }
        Document { rows, filename }
    }

    /// The text of the document as a file holds it: each line followed by
    /// one newline, the last one too.
    pub fn to_text(&self) -> (r: String)
        ensures
            r@ == serialized(self@),
    {
        let mut r = String::new();
        let mut i: usize = 0;
        let ghost f = |l: Seq<char>| l.push('\n');
        assert(self@.take(0).map_values(f) =~= Seq::<Seq<char>>::empty());
        while i < self.rows.len()
            invariant
                i <= self@.len(),
                self@.len() == self.rows@.len(),
                f == (|l: Seq<char>| l.push('\n')),
                r@ == self@.take(i as int).map_values(f).flatten(),
            decreases self.rows@.len() - i,
        {
            proof {
                let m = self@.take(i as int).map_values(f);
                assert(self@.take(i + 1).map_values(f) =~= m.push(self@[i as int].push('\n')));
                m.lemma_flatten_push(self@[i as int].push('\n'));
            }
            r.append(self.rows[i].as_str());
            push_char(&mut r, '\n');
            i = i + 1;
        }
        assert(self@.take(i as int) =~= self@);
        r
    }
}

/// A line without newline, then a newline, closes the partial line.
proof fn lemma_lines_from_line(l: Seq<char>, t: Seq<char>, cur: Seq<char>)
    requires
        forall|j: int| 0 <= j < l.len() ==> l[j] != '\n',
    ensures
        lines_from(l + seq!['\n'] + t, cur) == seq![cur + l] + lines_from(t, seq![]),
    decreases l.len(),
{
    let s = l + seq!['\n'] + t;
    if l.len() == 0 {
        assert(s[0] == '\n');
        assert(s.drop_first() =~= t);
        assert(cur + l =~= cur);
    } else {
        assert(s[0] == l[0]);
        assert(s.drop_first() =~= l.drop_first() + seq!['\n'] + t);
        lemma_lines_from_line(l.drop_first(), t, cur.push(l[0]));
        assert(cur.push(l[0]) + l.drop_first() =~= cur + l);
    }
}

/// No line read from a text holds a newline.
proof fn lemma_lines_from_no_newlines(s: Seq<char>, cur: Seq<char>)
    requires
        forall|j: int| 0 <= j < cur.len() ==> cur[j] != '\n',
    ensures
        no_newlines(lines_from(s, cur)),
    decreases s.len(),
{
    if s.len() > 0 {
        if s[0] == '\n' {
            lemma_lines_from_no_newlines(s.drop_first(), seq![]);
            let r = lines_from(s.drop_first(), seq![]);
            assert(lines_from(s, cur) == seq![cur] + r);
            assert forall|i: int, j: int|
                0 <= i < lines_from(s, cur).len() && 0 <= j < lines_from(s, cur)[i].len() implies
                lines_from(s, cur)[i][j] != '\n' by {
                if i > 0 {
                    assert(lines_from(s, cur)[i] == r[i - 1]);
                }
            }
        } else {
            lemma_lines_from_no_newlines(s.drop_first(), cur.push(s[0]));
        }
    }
}

/// Writing lines that hold no newline and reading the text back gives the
/// same lines.
pub proof fn lemma_lines_of_serialized(lines: Seq<Seq<char>>)
    requires
        no_newlines(lines),
    ensures
        lines_of(serialized(lines)) == lines,
    decreases lines.len(),
{
    let f = |l: Seq<char>| l.push('\n');
    if lines.len() == 0 {
        assert(lines.map_values(f) =~= Seq::<Seq<char>>::empty());
        assert(serialized(lines) =~= Seq::<char>::empty());
        assert(lines_of(serialized(lines)) =~= lines);
    } else {
        let rest = lines.drop_first();
        assert(lines.map_values(f).drop_first() =~= rest.map_values(f));
        assert(serialized(lines) == lines[0].push('\n') + serialized(rest));
        assert(lines[0].push('\n') + serialized(rest) =~= lines[0] + seq!['\n'] + serialized(rest));
        assert forall|j: int| 0 <= j < lines[0].len() implies lines[0][j] != '\n' by {
            assert(lines[0][j] != '\n');
        }
        lemma_lines_from_line(lines[0], serialized(rest), seq![]);
        assert forall|i: int, j: int| 0 <= i < rest.len() && 0 <= j < rest[i].len() implies
            rest[i][j] != '\n' by {
            assert(rest[i] == lines[i + 1]);
        }
        lemma_lines_of_serialized(rest);
        assert(Seq::<char>::empty() + lines[0] =~= lines[0]);
        assert(seq![lines[0]] + rest =~= lines);
    }
}

/// Reading a text, writing its lines and reading them again gives the lines
/// of the first reading.
pub proof fn lemma_round_trip(text: Seq<char>)
    ensures
        lines_of(serialized(lines_of(text))) == lines_of(text),
{
    lemma_lines_from_no_newlines(text, seq![]);
    lemma_lines_of_serialized(lines_of(text));
}

/// A forward delete at the end of a line that has a successor leaves one
/// line fewer, and that line holds the two joined.
pub proof fn lemma_delete_joins_lines(lines: Seq<Seq<char>>, y: int)
    requires
        0 <= y,
        y + 1 < lines.len(),
    ensures
        after_delete(lines, graphemes_of(lines[y]).len() as int, y).len() == lines.len() - 1,
        after_delete(lines, graphemes_of(lines[y]).len() as int, y)[y] == lines[y] + lines[y + 1],
{
}

impl Default for Document {
    /// No line and no path.
    fn default() -> (r: Document)
        ensures
            r.wf(),
            r@ == Seq::<Seq<char>>::empty(),
            r.file() is None,
    {
        let r = Document { rows: Vec::new(), filename: None };
        assert(r@ =~= Seq::<Seq<char>>::empty());
        r
    }
}

} // verus!
