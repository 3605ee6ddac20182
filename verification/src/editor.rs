//! The text editor used for launch scripts and notes: lines of text, a
//! cursor whose column is a byte offset into its line (as `String` indexes),
//! vertical and horizontal scrolling, and what each key does.

use vstd::prelude::*;
use crate::text::{
    chars_of, is_whitespace, join, join_strings, lemma_trim_end_step, lines, lines_of,
    slice_range, string_of, trim_end_ws, views,
};

verus! {

/// Number of bytes of `c` in UTF-8.
pub open spec fn utf8_width(c: char) -> int {
    if (c as u32) < 0x80 {
        1
    } else if (c as u32) < 0x800 {
        2
    } else if (c as u32) < 0x10000 {
        3
    } else {
        4
    }
}

/// Number of bytes of `s` in UTF-8 (`str::len`).
pub open spec fn byte_len(s: Seq<char>) -> int
    decreases s.len(),
{
    if s.len() == 0 {
        0
    } else {
        byte_len(s.drop_last()) + utf8_width(s.last())
    }
}

/// The byte offset at which character `k` of `s` starts.
pub open spec fn offset_of(s: Seq<char>, k: int) -> int {
    byte_len(s.take(k))
}

/// Whether byte offset `b` is a character boundary of `s` (its end
/// included).
pub open spec fn at_boundary(s: Seq<char>, b: int) -> bool {
    exists|k: int| 0 <= k <= s.len() && offset_of(s, k) == b
}

/// The character index at byte offset `b` (meaningful at a boundary).
pub open spec fn index_at(s: Seq<char>, b: int) -> int {
    choose|k: int| 0 <= k <= s.len() && offset_of(s, k) == b
}

proof fn lemma_offset_step(s: Seq<char>, k: int)
    requires
        0 <= k < s.len(),
    ensures
        offset_of(s, k + 1) == offset_of(s, k) + utf8_width(s[k]),
        offset_of(s, k + 1) > offset_of(s, k),
{
    assert(s.take(k + 1).drop_last() =~= s.take(k));
    assert(s.take(k + 1).last() == s[k]);
}

pub(crate) proof fn lemma_offset_mono(s: Seq<char>, j: int, k: int)
    requires
        0 <= j < k <= s.len(),
    ensures
        offset_of(s, j) < offset_of(s, k),
    decreases k - j,
{
    lemma_offset_step(s, k - 1);
    if j < k - 1 {
        lemma_offset_mono(s, j, k - 1);
    }
}

pub(crate) proof fn lemma_offset_nonneg(s: Seq<char>, k: int)
    requires
        0 <= k <= s.len(),
    ensures
        0 <= offset_of(s, k) <= byte_len(s),
{
    assert(s.take(0) =~= Seq::<char>::empty());
    if k > 0 {
        lemma_offset_mono(s, 0, k);
    }
    if k < s.len() {
        lemma_offset_mono(s, k, s.len() as int);
    }
    assert(s.take(s.len() as int) =~= s);
}

/// At a boundary, `index_at` is the one character index there.
pub(crate) proof fn lemma_index_at(s: Seq<char>, b: int, k: int)
    requires
        0 <= k <= s.len(),
        offset_of(s, k) == b,
    ensures
        index_at(s, b) == k,
{
    let j = index_at(s, b);
    if j < k {
        lemma_offset_mono(s, j, k);
    } else if k < j {
        lemma_offset_mono(s, k, j);
    }
}

/// UTF-8 width of a character.
pub(crate) fn width_of(c: char) -> (w: usize)
    ensures
        w == utf8_width(c),
{
    let v = c as u32;
    if v < 0x80 {
        1
    } else if v < 0x800 {
        2
    } else if v < 0x10000 {
        3
    } else {
        4
    }
}

/// The UTF-8 length of the characters `cs`.
fn byte_length(cs: &Vec<char>) -> (n: usize)
    requires
        byte_len(cs@) <= usize::MAX,
    ensures
        n == byte_len(cs@),
{
    let mut n: usize = 0;
    let mut i: usize = 0;
    proof {
        assert(cs@.take(0) =~= Seq::<char>::empty());
    }
    while i < cs.len()
        invariant
            i <= cs.len(),
            n == offset_of(cs@, i as int),
            byte_len(cs@) <= usize::MAX,
        decreases cs.len() - i,
    {
        proof {
            lemma_offset_step(cs@, i as int);
            lemma_offset_nonneg(cs@, i + 1);
            assert(cs@.take(cs@.len() as int) =~= cs@);
        }
        n = n + width_of(cs[i]);
        i += 1;
    }
    proof {
        assert(cs@.take(cs@.len() as int) =~= cs@);
    }
    n
}

/// The character index at byte offset `b` of `cs`, where `b` is a boundary.
pub(crate) fn index_of_offset(cs: &Vec<char>, b: usize) -> (r: Option<usize>)
    requires
        byte_len(cs@) <= usize::MAX,
    ensures
        r is Some <==> at_boundary(cs@, b as int),
        r matches Some(k) ==> k == index_at(cs@, b as int) && k <= cs.len() && offset_of(
            cs@,
            k as int,
        ) == b,
{
    let mut acc: usize = 0;
    let mut k: usize = 0;
    proof {
        assert(cs@.take(0) =~= Seq::<char>::empty());
    }
    while k < cs.len() && acc < b
        invariant
            k <= cs.len(),
            acc == offset_of(cs@, k as int),
            byte_len(cs@) <= usize::MAX,
            forall|j: int| 0 <= j < k ==> offset_of(cs@, j) < b,
        decreases cs.len() - k,
    {
        proof {
            lemma_offset_step(cs@, k as int);
            lemma_offset_nonneg(cs@, k + 1);
        }
        acc = acc + width_of(cs[k]);
        k += 1;
    }
    if acc == b {
        proof {
            lemma_index_at(cs@, b as int, k as int);
        }
        Some(k)
    } else {
        proof {
            assert forall|j: int| 0 <= j <= cs.len() implies offset_of(cs@, j) != b by {
                if j > k {
                    lemma_offset_mono(cs@, k as int, j);
                }
            }
        }
        None
    }
}

} // verus!

verus! {

/// A key in the editor.
#[derive(Debug, Clone, Copy, PartialEq, Eq, Structural)]
pub enum EditorKey {
    /// A character typed without Ctrl.
    Char(char),
    /// A character typed with Ctrl.
    Ctrl(char),
    Enter,
    Backspace,
    Delete,
    Tab,
    Up,
    Down,
    Left,
    Right,
    Home,
    End,
    PageUp,
    PageDown,
    Esc,
    Other,
}

/// What the host of the editor does after a key.
#[derive(Debug, Clone, Copy, PartialEq, Eq, Structural)]
pub enum EditorCommand {
    Nothing,
    /// Save the text (Ctrl+S).
    Save,
    /// Esc with unsaved changes: ask before discarding them.
    ConfirmDiscard,
    /// Esc without changes: the editor was cleared; leave it.
    Close,
}

/// The editor's state.
#[derive(Debug)]
pub struct ScriptEditor {
    pub lines: Vec<String>,
    /// (line, byte column)
    pub cursor: (usize, usize),
    /// First line shown.
    pub scroll: u16,
    /// First column shown.
    pub h_scroll: usize,
    pub modified: bool,
}

/// The editor's state as values.
#[verifier::ext_equal]
pub struct EditorView {
    pub lines: Seq<Seq<char>>,
    pub line: int,
    pub col: int,
    pub scroll: int,
    pub h_scroll: int,
    pub modified: bool,
}

impl View for ScriptEditor {
    type V = EditorView;

    open spec fn view(&self) -> EditorView {
        EditorView {
            lines: views(self.lines@),
            line: self.cursor.0 as int,
            col: self.cursor.1 as int,
            scroll: self.scroll as int,
            h_scroll: self.h_scroll as int,
            modified: self.modified,
        }
    }
}

/// Lines shown at once, by which the view scrolls down.
pub const VISIBLE_LINES: usize = 35;

/// Columns shown at once, by which the view scrolls right.
pub const VISIBLE_COLUMNS: usize = 80;

/// Lines moved by Page Up and Page Down.
pub const PAGE_JUMP: usize = 20;

/// Byte length of line `i` (0 past the end).
pub open spec fn line_len(v: EditorView, i: int) -> int {
    if 0 <= i < v.lines.len() {
        byte_len(v.lines[i])
    } else {
        0
    }
}

/// Index of the last line (0 when there is none).
pub open spec fn last_line(v: EditorView) -> int {
    if v.lines.len() == 0 {
        0
    } else {
        v.lines.len() - 1
    }
}

pub open spec fn min_int(a: int, b: int) -> int {
    if a <= b {
        a
    } else {
        b
    }
}

/// `s` with `t` inserted at character index `k`.
pub open spec fn insert_at(s: Seq<char>, k: int, t: Seq<char>) -> Seq<char> {
    s.take(k) + t + s.skip(k)
}

/// `v` with line `i` replaced by `s`, the cursor at (`line`, `col`) and the
/// text marked as changed.
pub open spec fn edited_line(v: EditorView, i: int, s: Seq<char>, line: int, col: int) -> EditorView {
    EditorView { lines: v.lines.update(i, s), line, col, modified: true, ..v }
}

/// The cursor moved to line `l`, its column kept within that line.
pub open spec fn moved_to_line(v: EditorView, l: int) -> EditorView {
    EditorView { line: l, col: min_int(v.col, line_len(v, l)), ..v }
}

/// The state after a cursor-movement key.
pub open spec fn after_move(v: EditorView, key: EditorKey) -> EditorView {
    match key {
        EditorKey::Up => if v.line > 0 {
            let w = moved_to_line(v, v.line - 1);
            EditorView {
                scroll: if w.line < v.scroll {
                    w.line
                } else {
                    v.scroll
                },
                ..w
            }
        } else {
            v
        },
        EditorKey::Down => if v.line < last_line(v) {
            let w = moved_to_line(v, v.line + 1);
            EditorView {
                scroll: if w.line >= v.scroll + 35 {
                    ((w.line - 34) as u16) as int
                } else {
                    v.scroll
                },
                ..w
            }
        } else {
            v
        },
        EditorKey::Left => {
            let (l, c) = if v.col > 0 {
                (v.line, v.col - 1)
            } else if v.line > 0 {
                (v.line - 1, line_len(v, v.line - 1))
            } else {
                (v.line, v.col)
            };
            EditorView {
                line: l,
                col: c,
                h_scroll: if c < v.h_scroll {
                    c
                } else {
                    v.h_scroll
                },
                ..v
            }
        },
        EditorKey::Right => {
            let (l, c) = if v.col < line_len(v, v.line) {
                (v.line, v.col + 1)
            } else if v.line < last_line(v) {
                (v.line + 1, 0)
            } else {
                (v.line, v.col)
            };
            EditorView {
                line: l,
                col: c,
                h_scroll: if c >= v.h_scroll + 80 {
                    c - 79
                } else {
                    v.h_scroll
                },
                ..v
            }
        },
        EditorKey::Home => EditorView { col: 0, h_scroll: 0, ..v },
        EditorKey::End => EditorView { col: line_len(v, v.line), ..v },
        EditorKey::PageUp => {
            let w = moved_to_line(
                v,
                if v.line >= 20 {
                    v.line - 20
                } else {
                    0
                },
            );
            EditorView {
                scroll: if v.scroll >= 20 {
                    v.scroll - 20
                } else {
                    0
                },
                ..w
            }
        },
        EditorKey::PageDown => {
            let w = moved_to_line(v, min_int(v.line + 20, last_line(v)));
            EditorView { scroll: min_int(v.scroll + 20, (last_line(v) as u16) as int), ..w }
        },
        _ => v,
    }
}

/// The state after an editing key (on the cursor's line, where it exists).
pub open spec fn after_edit(v: EditorView, key: EditorKey) -> EditorView {
    let n = v.lines.len();
    let i = v.line;
    let s = v.lines[i];
    match key {
        EditorKey::Enter => if i < n {
            let k = index_at(s, v.col);
            EditorView {
                lines: v.lines.take(i) + seq![s.take(k), s.skip(k)] + v.lines.skip(i + 1),
                line: i + 1,
                col: 0,
                modified: true,
                ..v
            }
        } else {
            v
        },
        EditorKey::Backspace => if v.col > 0 {
            if i < n {
                edited_line(v, i, s.remove(index_at(s, v.col - 1)), i, v.col - 1)
            } else {
                v
            }
        } else if i > 0 {
            let prev = v.lines[i - 1];
            EditorView {
                lines: v.lines.update(i - 1, prev + s).remove(i),
                line: i - 1,
                col: byte_len(prev),
                modified: true,
                ..v
            }
        } else {
            v
        },
        EditorKey::Delete => if i < n {
            if v.col < byte_len(s) {
                edited_line(v, i, s.remove(index_at(s, v.col)), i, v.col)
            } else if i < n - 1 {
                EditorView {
                    lines: v.lines.update(i, s + v.lines[i + 1]).remove(i + 1),
                    modified: true,
                    ..v
                }
            } else {
                v
            }
        } else {
            v
        },
        EditorKey::Tab => if i < n {
            edited_line(v, i, insert_at(s, index_at(s, v.col), "    "@), i, v.col + 4)
        } else {
            v
        },
        EditorKey::Char(c) => if i < n {
            edited_line(v, i, insert_at(s, index_at(s, v.col), seq![c]), i, v.col + 1)
        } else {
            v
        },
        _ => v,
    }
}

/// Whether `key` is a cursor-movement key.
pub open spec fn is_move(key: EditorKey) -> bool {
    ||| key is Up
    ||| key is Down
    ||| key is Left
    ||| key is Right
    ||| key is Home
    ||| key is End
    ||| key is PageUp
    ||| key is PageDown
}

/// Whether `key` edits the text.
pub open spec fn is_edit(key: EditorKey) -> bool {
    ||| key is Enter
    ||| key is Backspace
    ||| key is Delete
    ||| key is Tab
    ||| key is Char
}

/// The state and command after `key`.
pub open spec fn editor_step(v: EditorView, key: EditorKey) -> (EditorView, EditorCommand) {
    if is_move(key) {
        (after_move(v, key), EditorCommand::Nothing)
    } else if is_edit(key) {
        (after_edit(v, key), EditorCommand::Nothing)
    } else {
        match key {
            EditorKey::Ctrl(c) => (v, if c == 's' {
                EditorCommand::Save
            } else {
                EditorCommand::Nothing
            }),
            EditorKey::Esc => if v.modified {
                (v, EditorCommand::ConfirmDiscard)
            } else {
                (EditorView { lines: Seq::empty(), scroll: 0, ..v }, EditorCommand::Close)
            },
            _ => (v, EditorCommand::Nothing),
        }
    }
}

/// The largest byte length of a `String` (`isize::MAX`).
pub open spec fn max_text() -> int {
    isize::MAX as int
}

/// The inputs on which the key is handled: every line within the largest
/// `String`, and none of the cases in which the standard operations the
/// editor performs panic (a byte column inside a character or past its
/// line where the text is cut or extended there, a `String` grown past
/// `isize::MAX`, an arithmetic overflow).
pub open spec fn key_allowed(v: EditorView, key: EditorKey) -> bool {
    let n = v.lines.len();
    let i = v.line;
    let s = v.lines[i];
    &&& forall|j: int| 0 <= j < n ==> byte_len(#[trigger] v.lines[j]) <= max_text()
    &&& (key is Right ==> v.h_scroll + 80 <= usize::MAX)
    &&& (key is PageDown ==> v.line + 20 <= usize::MAX && v.scroll + 20 <= u16::MAX)
    &&& (key is Enter && i < n ==> at_boundary(s, v.col))
    &&& (key is Backspace && v.col > 0 && i < n ==> at_boundary(s, v.col - 1) && v.col - 1
        < byte_len(s))
    &&& (key is Backspace && v.col == 0 && i > 0 ==> i < n && byte_len(v.lines[i - 1]) + byte_len(
        s,
    ) <= max_text())
    &&& (key is Delete && i < n && v.col < byte_len(s) ==> at_boundary(s, v.col))
    &&& (key is Delete && i + 1 < n && v.col >= byte_len(s) ==> byte_len(s) + byte_len(
        v.lines[i + 1],
    ) <= max_text())
    &&& (key is Tab && i < n ==> at_boundary(s, v.col) && byte_len(s) + 4 <= max_text())
    &&& (key matches EditorKey::Char(c) ==> (i < n ==> at_boundary(s, v.col) && byte_len(s)
        + utf8_width(c) <= max_text()))
}

} // verus!

verus! {

/// `cs` without the character at `k`.
fn chars_without(cs: &Vec<char>, k: usize) -> (res: Vec<char>)
    requires
        k < cs.len(),
    ensures
        res@ == cs@.remove(k as int),
{
    let mut a = slice_range(cs, 0, k);
    let mut b = slice_range(cs, k + 1, cs.len());
    a.append(&mut b);
    proof {
        assert(a@ =~= cs@.remove(k as int));
    }
    a
}

/// `cs` with `t` inserted at `k`.
fn chars_inserted(cs: &Vec<char>, k: usize, t: &[char]) -> (res: Vec<char>)
    requires
        k <= cs.len(),
    ensures
        res@ == insert_at(cs@, k as int, t@),
{
    let mut a = slice_range(cs, 0, k);
    let mut i: usize = 0;
    while i < t.len()
        invariant
            i <= t.len(),
            k <= cs.len(),
            a@ == cs@.take(k as int) + t@.take(i as int),
        decreases t.len() - i,
    {
        a.push(t[i]);
        proof {
            assert(t@.take(i + 1) =~= t@.take(i as int).push(t@[i as int]));
        }
        i += 1;
    }
    let mut b = slice_range(cs, k, cs.len());
    a.append(&mut b);
    proof {
        assert(t@.take(t.len() as int) =~= t@);
        assert(a@ =~= insert_at(cs@, k as int, t@));
    }
    a
}

/// `a` followed by `b`.
fn joined(a: &str, b: &str) -> (res: String)
    ensures
        res@ == a@ + b@,
{
    let mut x = chars_of(a);
    let mut y = chars_of(b);
    x.append(&mut y);
    string_of(x.as_slice())
}

impl ScriptEditor {
    /// Byte length of line `i` (0 past the end).
    fn line_length(&self, i: usize) -> (n: usize)
        requires
            forall|j: int|
                0 <= j < self@.lines.len() ==> byte_len(#[trigger] self@.lines[j]) <= max_text(),
        ensures
            n == line_len(self@, i as int),
    {
        if i < self.lines.len() {
            let cs = chars_of(self.lines[i].as_str());
            proof {
                assert(self@.lines[i as int] == self.lines@[i as int]@);
            }
            byte_length(&cs)
        } else {
            0
        }
    }

    /// Move the cursor to line `l`, keeping its column within that line.
    fn move_to_line(&mut self, l: usize)
        requires
            forall|j: int|
                0 <= j < old(self)@.lines.len() ==> byte_len(#[trigger] old(self)@.lines[j])
                    <= max_text(),
        ensures
            final(self)@ == moved_to_line(old(self)@, l as int),
    {
        let n = self.line_length(l);
        let c = if self.cursor.1 <= n {
            self.cursor.1
        } else {
            n
        };
        self.cursor = (l, c);
    }
}

} // verus!

verus! {

impl ScriptEditor {
    fn handle_move(&mut self, key: EditorKey)
        requires
            is_move(key),
            key_allowed(old(self)@, key),
        ensures
            final(self)@ == after_move(old(self)@, key),
    {
        let total_lines = self.lines.len();
        let last: usize = if total_lines == 0 {
            0
        } else {
            total_lines - 1
        };
        match key {
            EditorKey::Up => {
                if self.cursor.0 > 0 {
                    self.move_to_line(self.cursor.0 - 1);
                    if self.cursor.0 < self.scroll as usize {
                        self.scroll = self.cursor.0 as u16;
                    }
                }
            },
            EditorKey::Down => {
                if self.cursor.0 < last {
                    self.move_to_line(self.cursor.0 + 1);
                    if self.cursor.0 >= self.scroll as usize + VISIBLE_LINES {
                        self.scroll = (self.cursor.0 - VISIBLE_LINES + 1) as u16;
                    }
                }
            },
            EditorKey::Left => {
                if self.cursor.1 > 0 {
                    self.cursor = (self.cursor.0, self.cursor.1 - 1);
                } else if self.cursor.0 > 0 {
                    let l = self.cursor.0 - 1;
                    let n = self.line_length(l);
                    self.cursor = (l, n);
                }
                if self.cursor.1 < self.h_scroll {
                    self.h_scroll = self.cursor.1;
                }
            },
            EditorKey::Right => {
                let line_len = self.line_length(self.cursor.0);
                if self.cursor.1 < line_len {
                    self.cursor = (self.cursor.0, self.cursor.1 + 1);
                } else if self.cursor.0 < last {
                    self.cursor = (self.cursor.0 + 1, 0);
                }
                if self.cursor.1 >= self.h_scroll + VISIBLE_COLUMNS {
                    self.h_scroll = self.cursor.1 - VISIBLE_COLUMNS + 1;
                }
            },
            EditorKey::Home => {
                self.cursor = (self.cursor.0, 0);
                self.h_scroll = 0;
            },
            EditorKey::End => {
                let n = self.line_length(self.cursor.0);
                self.cursor = (self.cursor.0, n);
            },
            EditorKey::PageUp => {
                let l = if self.cursor.0 >= PAGE_JUMP {
                    self.cursor.0 - PAGE_JUMP
                } else {
                    0
                };
                self.scroll = if self.scroll >= PAGE_JUMP as u16 {
                    self.scroll - PAGE_JUMP as u16
                } else {
                    0
                };
                self.move_to_line(l);
            },
            EditorKey::PageDown => {
                let down = self.cursor.0 + PAGE_JUMP;
                let l = if down <= last {
                    down
                } else {
                    last
                };
                let bottom = last as u16;
                let sc = self.scroll + PAGE_JUMP as u16;
                self.scroll = if sc <= bottom {
                    sc
                } else {
                    bottom
                };
                self.move_to_line(l);
            },
            _ => {},
        }
    }
}

} // verus!

verus! {

impl ScriptEditor {
    fn handle_edit(&mut self, key: EditorKey)
        requires
            is_edit(key),
            key_allowed(old(self)@, key),
        ensures
            final(self)@ == after_edit(old(self)@, key),
    {
        let ghost v = self@;
        let total_lines = self.lines.len();
        let (line_idx, col) = self.cursor;
        match key {
            EditorKey::Enter => {
                if line_idx < total_lines {
                    let cs = chars_of(self.lines[line_idx].as_str());
                    proof {
                        assert(v.lines[line_idx as int] == cs@);
                    }
                    let k = index_of_offset(&cs, col).unwrap();
                    let head = string_of(slice_range(&cs, 0, k).as_slice());
                    let tail = string_of(slice_range(&cs, k, cs.len()).as_slice());
                    self.lines.set(line_idx, head);
                    self.lines.insert(line_idx + 1, tail);
                    self.cursor = (line_idx + 1, 0);
                    self.modified = true;
                    proof {
                        let s = cs@;
                        assert(self@.lines =~= v.lines.take(line_idx as int) + seq![
                            s.take(k as int),
                            s.skip(k as int),
                        ] + v.lines.skip(line_idx + 1));
                    }
                }
            },
            EditorKey::Backspace => {
                if col > 0 {
                    if line_idx < total_lines {
                        let cs = chars_of(self.lines[line_idx].as_str());
                        proof {
                            assert(v.lines[line_idx as int] == cs@);
                        }
                        let k = index_of_offset(&cs, col - 1).unwrap();
                        proof {
                            if k == cs.len() {
                                assert(cs@.take(k as int) =~= cs@);
                            }
                        }
                        let rest = chars_without(&cs, k);
                        self.lines.set(line_idx, string_of(rest.as_slice()));
                        self.cursor = (line_idx, col - 1);
                        self.modified = true;
                        proof {
                            assert(self@.lines =~= v.lines.update(
                                line_idx as int,
                                cs@.remove(k as int),
                            ));
                        }
                    }
                } else if line_idx > 0 {
                    let current = self.lines.remove(line_idx);
                    let prev_cs = chars_of(self.lines[line_idx - 1].as_str());
                    proof {
                        assert(v.lines[line_idx - 1] == prev_cs@);
                        assert(v.lines[line_idx as int] == current@);
                    }
                    let prev_len = byte_length(&prev_cs);
                    let merged = joined(self.lines[line_idx - 1].as_str(), current.as_str());
                    self.lines.set(line_idx - 1, merged);
                    self.cursor = (line_idx - 1, prev_len);
                    self.modified = true;
                    proof {
                        assert(self@.lines =~= v.lines.update(
                            line_idx - 1,
                            v.lines[line_idx - 1] + v.lines[line_idx as int],
                        ).remove(line_idx as int));
                    }
                }
            },
            EditorKey::Delete => {
                if line_idx < total_lines {
                    let cs = chars_of(self.lines[line_idx].as_str());
                    proof {
                        assert(v.lines[line_idx as int] == cs@);
                    }
                    let n = byte_length(&cs);
                    if col < n {
                        let k = index_of_offset(&cs, col).unwrap();
                        proof {
                            if k == cs.len() {
                                assert(cs@.take(k as int) =~= cs@);
                            }
                        }
                        let rest = chars_without(&cs, k);
                        self.lines.set(line_idx, string_of(rest.as_slice()));
                        self.modified = true;
                        proof {
                            assert(self@.lines =~= v.lines.update(
                                line_idx as int,
                                cs@.remove(k as int),
                            ));
                        }
                    } else if line_idx < total_lines - 1 {
                        let next = self.lines.remove(line_idx + 1);
                        proof {
                            assert(v.lines[line_idx + 1] == next@);
                        }
                        let merged = joined(self.lines[line_idx].as_str(), next.as_str());
                        self.lines.set(line_idx, merged);
                        self.modified = true;
                        proof {
                            assert(self@.lines =~= v.lines.update(
                                line_idx as int,
                                v.lines[line_idx as int] + v.lines[line_idx + 1],
                            ).remove(line_idx + 1));
                        }
                    }
                }
            },
            EditorKey::Tab => {
                if line_idx < total_lines {
                    let cs = chars_of(self.lines[line_idx].as_str());
                    proof {
                        assert(v.lines[line_idx as int] == cs@);
                    }
                    let k = index_of_offset(&cs, col).unwrap();
                    let spaces = chars_of("    ");
                    let new_cs = chars_inserted(&cs, k, spaces.as_slice());
                    self.lines.set(line_idx, string_of(new_cs.as_slice()));
                    proof {
                        lemma_offset_nonneg(cs@, k as int);
                    }
                    self.cursor = (line_idx, col + 4);
                    self.modified = true;
                    proof {
                        assert(self@.lines =~= v.lines.update(
                            line_idx as int,
                            insert_at(cs@, k as int, "    "@),
                        ));
                    }
                }
            },
            EditorKey::Char(c) => {
                if line_idx < total_lines {
                    let cs = chars_of(self.lines[line_idx].as_str());
                    proof {
                        assert(v.lines[line_idx as int] == cs@);
                    }
                    let k = index_of_offset(&cs, col).unwrap();
                    let one = vec![c];
                    let new_cs = chars_inserted(&cs, k, one.as_slice());
                    self.lines.set(line_idx, string_of(new_cs.as_slice()));
                    proof {
                        lemma_offset_nonneg(cs@, k as int);
                    }
                    self.cursor = (line_idx, col + 1);
                    self.modified = true;
                    proof {
                        assert(one@ =~= seq![c]);
                        assert(self@.lines =~= v.lines.update(
                            line_idx as int,
                            insert_at(cs@, k as int, seq![c]),
                        ));
                    }
                }
            },
            _ => {},
        }
    }

    /// Handle one key: move the cursor, edit the text, or tell the host to
    /// save, confirm a discard, or close.
    pub fn handle_key(&mut self, key: EditorKey) -> (cmd: EditorCommand)
        requires
            key_allowed(old(self)@, key),
        ensures
            (final(self)@, cmd) == editor_step(old(self)@, key),
    {
        if matches!(key, EditorKey::Up | EditorKey::Down | EditorKey::Left | EditorKey::Right
            | EditorKey::Home | EditorKey::End | EditorKey::PageUp | EditorKey::PageDown) {
            self.handle_move(key);
            EditorCommand::Nothing
        } else if matches!(key, EditorKey::Enter | EditorKey::Backspace | EditorKey::Delete
            | EditorKey::Tab | EditorKey::Char(_)) {
            self.handle_edit(key);
            EditorCommand::Nothing
        } else {
            match key {
                EditorKey::Ctrl(c) => if c == 's' {
                    EditorCommand::Save
                } else {
                    EditorCommand::Nothing
                },
                EditorKey::Esc => if self.modified {
                    EditorCommand::ConfirmDiscard
                } else {
                    self.scroll = 0;
                    self.lines.clear();
                    EditorCommand::Close
                },
                _ => EditorCommand::Nothing,
            }
        }
    }
}

} // verus!

verus! {

proof fn lemma_byte_len_add(a: Seq<char>, b: Seq<char>)
    ensures
        byte_len(a + b) == byte_len(a) + byte_len(b),
    decreases b.len(),
{
    if b.len() == 0 {
        assert(a + b =~= a);
    } else {
        assert((a + b).drop_last() =~= a + b.drop_last());
        assert((a + b).last() == b.last());
        lemma_byte_len_add(a, b.drop_last());
    }
}

proof fn lemma_take_skip(s: Seq<char>, k: int)
    requires
        0 <= k <= s.len(),
    ensures
        s.take(k) + s.skip(k) == s,
        byte_len(s) == offset_of(s, k) + byte_len(s.skip(k)),
{
    assert(s.take(k) + s.skip(k) =~= s);
    lemma_byte_len_add(s.take(k), s.skip(k));
}

/// Cursor keys never change the text.
pub proof fn lemma_moves_keep_text(v: EditorView, key: EditorKey)
    requires
        is_move(key),
    ensures
        editor_step(v, key).0.lines == v.lines,
        editor_step(v, key).0.modified == v.modified,
        editor_step(v, key).1 == EditorCommand::Nothing,
{
}

/// Typing a character and then pressing Backspace gives back the text and
/// the cursor: the second key is allowed, and only the changed mark stays.
pub proof fn lemma_type_then_backspace(v: EditorView, c: char)
    requires
        key_allowed(v, EditorKey::Char(c)),
        0 <= v.line < v.lines.len(),
    ensures
        key_allowed(editor_step(v, EditorKey::Char(c)).0, EditorKey::Backspace),
        ({
            let w = editor_step(editor_step(v, EditorKey::Char(c)).0, EditorKey::Backspace).0;
            &&& w.lines == v.lines
            &&& w.line == v.line
            &&& w.col == v.col
        }),
{
    let i = v.line;
    let s = v.lines[i];
    let k = index_at(s, v.col);
    let t = insert_at(s, k, seq![c]);
    let w = editor_step(v, EditorKey::Char(c)).0;
    assert(w.lines == v.lines.update(i, t));
    assert(t.take(k) =~= s.take(k));
    assert(t[k] == c);
    lemma_offset_step(t, k);
    lemma_index_at(t, v.col, k);
    lemma_byte_len_add(s.take(k) + seq![c], s.skip(k));
    lemma_byte_len_add(s.take(k), seq![c]);
    lemma_take_skip(s, k);
    assert(byte_len(seq![c]) == utf8_width(c)) by {
        assert(seq![c].drop_last() =~= Seq::<char>::empty());
        assert(byte_len(Seq::<char>::empty()) == 0);
        assert(seq![c].last() == c);
    }
    lemma_offset_nonneg(t, k + 1);
    assert(forall|j: int| 0 <= j < w.lines.len() ==> byte_len(#[trigger] w.lines[j]) <= max_text()) by {
        assert forall|j: int| 0 <= j < w.lines.len() implies byte_len(#[trigger] w.lines[j])
            <= max_text() by {
            if j != i {
                assert(w.lines[j] == v.lines[j]);
            }
        }
    }
    lemma_offset_nonneg(s, k);
    assert(offset_of(t, k) == v.col);
    assert(t.remove(k) =~= s);
    assert(v.lines.update(i, t).update(i, s) =~= v.lines);
}

/// Breaking a line with Enter and joining it back with Backspace gives
/// back the text and the cursor.
pub proof fn lemma_enter_then_backspace(v: EditorView)
    requires
        key_allowed(v, EditorKey::Enter),
        0 <= v.line < v.lines.len(),
    ensures
        key_allowed(editor_step(v, EditorKey::Enter).0, EditorKey::Backspace),
        ({
            let w = editor_step(editor_step(v, EditorKey::Enter).0, EditorKey::Backspace).0;
            &&& w.lines == v.lines
            &&& w.line == v.line
            &&& w.col == v.col
        }),
{
    let i = v.line;
    let s = v.lines[i];
    let k = index_at(s, v.col);
    let w = editor_step(v, EditorKey::Enter).0;
    let new_lines = v.lines.take(i) + seq![s.take(k), s.skip(k)] + v.lines.skip(i + 1);
    assert(w.lines == new_lines);
    assert(new_lines[i] == s.take(k));
    assert(new_lines[i + 1] == s.skip(k));
    lemma_take_skip(s, k);
    lemma_byte_len_add(s.take(k), s.skip(k));
    lemma_offset_nonneg(s, k);
    assert(forall|j: int| 0 <= j < w.lines.len() ==> byte_len(#[trigger] w.lines[j]) <= max_text()) by {
        assert forall|j: int| 0 <= j < w.lines.len() implies byte_len(#[trigger] w.lines[j])
            <= max_text() by {
            if j < i {
                assert(w.lines[j] == v.lines[j]);
            } else if j > i + 1 {
                assert(w.lines[j] == v.lines[j - 1]);
            }
        }
    }
    assert(new_lines.update(i, s.take(k) + s.skip(k)).remove(i + 1) =~= v.lines);
}

} // verus!

verus! {

/// `t` ending with a newline: itself where it does, else with one added.
pub open spec fn with_final_newline(t: Seq<char>) -> Seq<char> {
    if t.len() > 0 && t.last() == '\n' {
        t
    } else {
        t.push('\n')
    }
}

/// The lines the editor opens `text` as: its lines, or one empty line.
pub open spec fn opened_lines(text: Seq<char>) -> Seq<Seq<char>> {
    if lines(text).len() == 0 {
        seq![Seq::<char>::empty()]
    } else {
        lines(text)
    }
}

impl ScriptEditor {
    /// The editor opened on `text`: its lines (one empty line for an empty
    /// text), the cursor at the start, nothing scrolled or changed.
    pub fn open(text: &str) -> (res: Self)
        ensures
            res@ == (EditorView {
                lines: opened_lines(text@),
                line: 0,
                col: 0,
                scroll: 0,
                h_scroll: 0,
                modified: false,
            }),
    {
        let mut ls = lines_of(text);
        if ls.len() == 0 {
            ls.push(String::new());
            proof {
                assert(views(ls@) =~= seq![Seq::<char>::empty()]);
            }
        }
        ScriptEditor { lines: ls, cursor: (0, 0), scroll: 0, h_scroll: 0, modified: false }
    }

    /// The text of a launch script: the lines joined by newlines, ending
    /// with a newline.
    pub fn script_text(&self) -> (res: String)
        ensures
            res@ == with_final_newline(join(self@.lines, "\n"@)),
    {
        let content = join_strings(&self.lines, "\n");
        let cs = chars_of(content.as_str());
        if cs.len() > 0 && cs[cs.len() - 1] == '\n' {
            content
        } else {
            let mut out = content;
            crate::text::push_char(&mut out, '\n');
            out
        }
    }

    /// The text of notes: the lines joined by newlines, trailing white
    /// space removed; none where that leaves nothing.
    pub fn notes_text(&self) -> (res: Option<String>)
        ensures
            ({
                let t = trim_end_ws(join(self@.lines, "\n"@));
                &&& res is None <==> t.len() == 0
                &&& res matches Some(s) ==> s@ == t
            }),
    {
        let content = join_strings(&self.lines, "\n");
        let cs = chars_of(content.as_str());
        let mut b = cs.len();
        proof {
            assert(cs@.subrange(0, cs@.len() as int) =~= cs@);
        }
        while b > 0 && is_whitespace(cs[b - 1])
            invariant
                b <= cs.len(),
                trim_end_ws(cs@) == trim_end_ws(cs@.subrange(0, b as int)),
            decreases b,
        {
            proof {
                lemma_trim_end_step(cs@, b as int);
            }
            b -= 1;
        }
        proof {
            let u = cs@.subrange(0, b as int);
            if b > 0 {
                assert(u.last() == cs@[b - 1]);
            }
            assert(trim_end_ws(u) == u);
        }
        if b == 0 {
            None
        } else {
            Some(string_of(slice_range(&cs, 0, b).as_slice()))
        }
    }
}

} // verus!
