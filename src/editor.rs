use crate::document::{after_delete, after_insert, Document};
use crate::row::rendered;
use crate::screen::{status_line, status_text};
use crate::text::graphemes_of;
use vstd::prelude::*;

verus! {

/// A column and a row, both counted from zero, in clusters and lines.
#[derive(Clone, Copy, Debug, PartialEq, Eq, Structural)]
pub struct Position {
    pub x: usize,
    pub y: usize,
}

impl Default for Position {
    /// The origin.
    fn default() -> (r: Position)
        ensures
            r.x == 0,
            r.y == 0,
    {
        Position { x: 0, y: 0 }
    }
}

/// A key as the editor reads it.
#[derive(Clone, Copy, Debug, PartialEq, Eq, Structural)]
pub enum Key {
    Char(char),
    Ctrl(char),
    Up,
    Down,
    Left,
    Right,
    PageUp,
    PageDown,
    Home,
    End,
    Delete,
    Backspace,
    Other,
}

/// What the caller is asked to do after a key.
#[derive(Clone, Copy, Debug, PartialEq, Eq, Structural)]
pub enum Action {
    Nothing,
    Save,
    Quit,
}

/// What one screen row shows.
#[derive(Debug, PartialEq, Eq)]
pub enum ScreenLine {
    Text(String),
    Welcome,
    Filler,
}

/// The number of clusters of line `y`, or 0 where there is no such line.
pub open spec fn line_len(lines: Seq<Seq<char>>, y: int) -> int {
    if 0 <= y < lines.len() {
        graphemes_of(lines[y]).len() as int
    } else {
        0
    }
}

/// The cursor `(x, y)` moved by `key` before the column is clamped to the
/// row it lands on.
pub open spec fn stepped(lines: Seq<Seq<char>>, x: int, y: int, key: Key, page: int) -> (int, int) {
    let n = lines.len() as int;
    let w = line_len(lines, y);
    match key {
        Key::Up => (x, if y > 0 { y - 1 } else { 0 }),
        Key::Down => (x, if y < n { y + 1 } else { y }),
        Key::Left => if x > 0 {
            (x - 1, y)
        } else if y > 0 {
            (line_len(lines, y - 1), y - 1)
        } else {
            (x, y)
        },
        Key::Right => if x < w {
            (x + 1, y)
        } else if y < n {
            (0, y + 1)
        } else {
            (x, y)
        },
        Key::PageUp => (x, if y > page { y - page } else { 0 }),
        Key::PageDown => (x, if y + page < n { y + page } else { n }),
        Key::Home => (0, y),
        Key::End => (w, y),
        _ => (x, y),
    }
}

/// The cursor `(x, y)` moved by `key`, its column clamped to its new row;
/// `page` is the height of the window.
pub open spec fn moved(lines: Seq<Seq<char>>, x: int, y: int, key: Key, page: int) -> (int, int) {
    let (nx, ny) = stepped(lines, x, y, key, page);
    let w = line_len(lines, ny);
    (if nx > w { w } else { nx }, ny)
}

/// The offset of a window of `extent` cells along one axis after the least
/// move that brings `c` into `[offset, offset + extent)`.
pub open spec fn scrolled(c: int, offset: int, extent: int) -> int {
    if c < offset {
        c
    } else if c >= offset + extent {
        c - extent + 1
    } else {
        offset
    }
}

/// The lines and the cursor after `key` is handled at cursor `(x, y)`.
pub open spec fn after_key(lines: Seq<Seq<char>>, x: int, y: int, key: Key, page: int) -> (
    Seq<Seq<char>>,
    (int, int),
) {
    match key {
        Key::Char(c) => {
            let typed = after_insert(lines, x, y, c);
            (typed, moved(typed, x, y, Key::Right, page))
        },
        Key::Delete => (after_delete(lines, x, y), (x, y)),
        Key::Backspace => if x > 0 || y > 0 {
            let back = moved(lines, x, y, Key::Left, page);
            (after_delete(lines, back.0, back.1), back)
        } else {
            (lines, (x, y))
        },
        Key::Up | Key::Down | Key::Left | Key::Right | Key::PageUp | Key::PageDown | Key::Home
        | Key::End => (lines, moved(lines, x, y, key, page)),
        _ => (lines, (x, y)),
    }
}

/// What a key asks of the caller.
pub open spec fn action_of(key: Key) -> Action {
    match key {
        Key::Ctrl(c) => if c == 'q' {
            Action::Quit
        } else if c == 's' {
            Action::Save
        } else {
            Action::Nothing
        },
        _ => Action::Nothing,
    }
}

/// The screen column or row of a cursor coordinate, 0 left of the window.
pub open spec fn on_screen(c: int, offset: int) -> int {
    if c > offset {
        c - offset
    } else {
        0
    }
}

/// The editing state: a document, the cursor in it, and the top-left corner
/// of the visible window.
pub struct Editor {
    quit_flag: bool,
    cursor_pos: Position,
    document: Document,
    offset: Position,
}

impl Editor {
    /// The document is well formed.
    pub closed spec fn wf(&self) -> bool {
        self.document.wf()
    }

    /// The lines of the document.
    pub closed spec fn lines(&self) -> Seq<Seq<char>> {
        self.document@
    }

    /// The cursor.
    pub closed spec fn cursor(&self) -> Position {
        self.cursor_pos
    }

    /// The top-left corner of the visible window.
    pub closed spec fn window(&self) -> Position {
        self.offset
    }

    /// The path of the document.
    pub closed spec fn file(&self) -> Option<String> {
        self.document.file()
    }

    /// Whether the quit command was given.
    pub closed spec fn quitting(&self) -> bool {
        self.quit_flag
    }

    /// An editor on `document`, with the cursor and the window at the origin.
    pub fn new(document: Document) -> (r: Editor)
        requires
            document.wf(),
        ensures
            r.wf(),
            r.lines() == document@,
            r.cursor() == (Position { x: 0, y: 0 }),
            r.window() == (Position { x: 0, y: 0 }),
            !r.quitting(),
    {
        Editor {
            quit_flag: false,
            cursor_pos: Position { x: 0, y: 0 },
            document,
            offset: Position { x: 0, y: 0 },
        }
    }

    /// The document being edited.
    pub fn document(&self) -> (r: &Document)
        ensures
            r@ == self.lines(),
            self.wf() ==> r.wf(),
    {
        &self.document
    }

    /// The cursor.
    pub fn cursor_pos(&self) -> (r: Position)
        ensures
            r == self.cursor(),
    {
        self.cursor_pos
    }

    /// The top-left corner of the visible window.
    pub fn offset(&self) -> (r: Position)
        ensures
            r == self.window(),
    {
        self.offset
    }

    /// Whether the quit command was given.
    pub fn should_quit(&self) -> (r: bool)
        ensures
            r == self.quitting(),
    {
        self.quit_flag
    }

    fn row_len(&self, y: usize) -> (r: usize)
        requires
            self.wf(),
        ensures
            r == line_len(self.lines(), y as int),
    {
        match self.document.row(y) {
            Some(row) => row.len(),
            None => 0,
        }
    }

    /// Moves the cursor by `key`; `terminal_height` is the page size.
    pub fn move_cursor(&mut self, key: Key, terminal_height: usize)
        requires
            old(self).wf(),
        ensures
            final(self).wf(),
            final(self).lines() == old(self).lines(),
            final(self).window() == old(self).window(),
            final(self).quitting() == old(self).quitting(),
            (final(self).cursor().x as int, final(self).cursor().y as int) == moved(
                old(self).lines(),
                old(self).cursor().x as int,
                old(self).cursor().y as int,
                key,
                terminal_height as int,
            ),
    {
        let Position { mut x, mut y } = self.cursor_pos;
        let height = self.document.len();
        let width = self.row_len(y);
        match key {
            Key::Up => y = if y > 0 { y - 1 } else { 0 },
            Key::Down => {
                if y < height {
                    y = y + 1;
                }
            },
            Key::Left => {
                if x > 0 {
                    x = x - 1;
                } else if y > 0 {
                    y = y - 1;
                    x = self.row_len(y);
                }
            },
            Key::Right => {
                if x < width {
                    x = x + 1;
                } else if y < height {
                    y = y + 1;
                    x = 0;
                }
            },
            Key::PageUp => {
                y = if y > terminal_height {
                    y - terminal_height
                } else {
                    0
                };
            },
            Key::PageDown => {
                y = if y < height && terminal_height < height - y {
                    y + terminal_height
                } else {
                    height
                };
            },
            Key::Home => x = 0,
            Key::End => x = width,
            _ => {},
        }
        let width = self.row_len(y);
        if x > width {
            x = width;
        }
        self.cursor_pos = Position { x, y };
    }

    /// Moves the window the least that shows the cursor, on each axis.
    pub fn scroll(&mut self, width: usize, height: usize)
        requires
            width > 0,
            height > 0,
        ensures
            final(self).wf() == old(self).wf(),
            final(self).lines() == old(self).lines(),
            final(self).cursor() == old(self).cursor(),
            final(self).quitting() == old(self).quitting(),
            final(self).window().x as int == scrolled(
                old(self).cursor().x as int,
                old(self).window().x as int,
                width as int,
            ),
            final(self).window().y as int == scrolled(
                old(self).cursor().y as int,
                old(self).window().y as int,
                height as int,
            ),
    {
        let Position { x, y } = self.cursor_pos;
        if y < self.offset.y {
            self.offset.y = y;
        } else if y - self.offset.y >= height {
            self.offset.y = y - height + 1;
        }
        if x < self.offset.x {
            self.offset.x = x;
        } else if x - self.offset.x >= width {
            self.offset.x = x - width + 1;
        }
    }

    /// Handles one key on a window of `width` columns and `height` rows:
    /// edits or moves as the key says, then scrolls to the cursor. Quitting
    /// is recorded; saving is left to the caller through the result.
    pub fn process_keypress(&mut self, key: Key, width: usize, height: usize) -> (r: Action)
        requires
            old(self).wf(),
            width > 0,
            height > 0,
        ensures
            final(self).wf(),
            r == action_of(key),
            final(self).quitting() == (old(self).quitting() || r == Action::Quit),
            ({
                let (lines, (cx, cy)) = after_key(
                    old(self).lines(),
                    old(self).cursor().x as int,
                    old(self).cursor().y as int,
                    key,
                    height as int,
                );
                &&& final(self).lines() == lines
                &&& final(self).cursor().x as int == cx
                &&& final(self).cursor().y as int == cy
            }),
            final(self).window().x as int == scrolled(
                final(self).cursor().x as int,
                old(self).window().x as int,
                width as int,
            ),
            final(self).window().y as int == scrolled(
                final(self).cursor().y as int,
                old(self).window().y as int,
                height as int,
            ),
    {
        let mut action = Action::Nothing;
        match key {
            Key::Ctrl(c) => {
                if c == 'q' {
                    self.quit_flag = true;
                    action = Action::Quit;
                } else if c == 's' {
                    action = Action::Save;
                }
            },
            Key::Char(chr) => {
                self.document.insert(&self.cursor_pos, chr);
                self.move_cursor(Key::Right, height);
            },
            Key::Delete => self.document.delete(&self.cursor_pos),
            Key::Backspace => {
                if self.cursor_pos.x > 0 || self.cursor_pos.y > 0 {
                    self.move_cursor(Key::Left, height);
                    self.document.delete(&self.cursor_pos);
                }
            },
            Key::Up | Key::Down | Key::Left | Key::Right | Key::PageUp | Key::PageDown | Key::Home
            | Key::End => self.move_cursor(key, height),
            Key::Other => {},
        }
        self.scroll(width, height);
        action
    }

    /// What screen row `terminal_row` of a window `width` columns wide and
    /// `height` rows high shows: the visible part of a line, the welcome
    /// text on an empty document a third of the way down, or filler.
    pub fn screen_line(&self, terminal_row: usize, width: usize, height: usize) -> (r: ScreenLine)
        requires
            self.wf(),
        ensures
            ({
                let index = self.window().y + terminal_row;
                let lines = self.lines();
                &&& index < lines.len() ==> (r matches ScreenLine::Text(s) && s@ == rendered(
                    lines[index],
                    self.window().x as int,
                    self.window().x + width,
                ))
                &&& index >= lines.len() && lines.len() == 0 && terminal_row == height / 3 ==> r
                    == ScreenLine::Welcome
                &&& index >= lines.len() && !(lines.len() == 0 && terminal_row == height / 3) ==> r
                    == ScreenLine::Filler
            }),
    {
        let n = self.document.len();
        if terminal_row < n && self.offset.y < n - terminal_row {
            let index = self.offset.y + terminal_row;
            match self.document.row(index) {
                Some(row) => {
                    let start = self.offset.x;
                    let end = if width <= usize::MAX - start {
                        start + width
                    } else {
                        usize::MAX
                    };
                    let count = row.len();
                    ScreenLine::Text(row.render(start, end))
                },
                None => ScreenLine::Filler,
            }
        } else if n == 0 && terminal_row == height / 3 {
            ScreenLine::Welcome
        } else {
            ScreenLine::Filler
        }
    }

    /// Where the cursor stands on screen: its position less the window's
    /// corner, 0 where it lies left of or above the window.
    pub fn screen_cursor(&self) -> (r: Position)
        ensures
            r.x as int == on_screen(self.cursor().x as int, self.window().x as int),
            r.y as int == on_screen(self.cursor().y as int, self.window().y as int),
    {
        Position {
            x: if self.cursor_pos.x > self.offset.x {
                self.cursor_pos.x - self.offset.x
            } else {
                0
            },
            y: if self.cursor_pos.y > self.offset.y {
                self.cursor_pos.y - self.offset.y
            } else {
                0
            },
        }
    }

    /// The status bar of a window `width` wide for this document and cursor;
    /// the line shown is the cursor's row plus one, at most `usize::MAX`.
    pub fn status_bar(&self, width: usize) -> (r: String)
        ensures
            r@ == status_text(
                match self.file() {
                    Some(n) => Some(n@),
                    None => None,
                },
                self.lines().len(),
                if self.cursor().y < usize::MAX {
                    (self.cursor().y + 1) as nat
                } else {
                    usize::MAX as nat
                },
                width as nat,
            ),
    {
        let name = self.document.name();
        let line = if self.cursor_pos.y < usize::MAX {
            self.cursor_pos.y + 1
        } else {
            usize::MAX
        };
        status_line(name, self.document.len(), line, width)
    }
}

/// Moving right at the end of a line that has a successor goes to the start
/// of the next line.
pub proof fn lemma_right_wraps(lines: Seq<Seq<char>>, y: int, page: int)
    requires
        0 <= y,
        y + 1 < lines.len(),
    ensures
        moved(lines, line_len(lines, y), y, Key::Right, page) == (0int, y + 1),
{
}

/// Moving left at the start of any line but the first goes to the end of
/// the line before it.
pub proof fn lemma_left_wraps(lines: Seq<Seq<char>>, y: int, page: int)
    requires
        0 < y <= lines.len(),
    ensures
        moved(lines, 0, y, Key::Left, page) == (line_len(lines, y - 1), y - 1),
{
}

/// After scrolling, the cursor lies inside the window on that axis.
pub proof fn lemma_scroll_shows_cursor(c: int, offset: int, extent: int)
    requires
        extent > 0,
    ensures
        scrolled(c, offset, extent) <= c < scrolled(c, offset, extent) + extent,
{
}

} // verus!
