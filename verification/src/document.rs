//! The document buffer: an ordered sequence of lines of text together with
//! a cursor position and an optional selection, mutated in place by the
//! closed set of [`Action`] values. Every mutation keeps the cursor and the
//! selection inside the buffer's bounds.

use vstd::prelude::*;
use vstd::std_specs::iter::IteratorSpec;

verus! {

/// A position in the buffer: 0-based line and column. Column `n` on a line
/// of length `n` is the position just past its last character.
#[derive(Clone, Copy, Debug, PartialEq, Eq, Structural)]
pub struct Pos {
    pub line: usize,
    pub col: usize,
}

/// A selection: `anchor` is where selecting started, `head` is the moving
/// end, which coincides with the cursor. The two ends are never equal.
#[derive(Clone, Copy, Debug, PartialEq, Eq, Structural)]
pub struct Selection {
    pub anchor: Pos,
    pub head: Pos,
}

/// A cursor movement target.
#[derive(Clone, Copy, Debug, PartialEq, Eq, Structural)]
pub enum Direction {
    Up,
    Down,
    Left,
    Right,
    LineStart,
    LineEnd,
    DocumentStart,
    DocumentEnd,
}

/// One atomic editing or movement operation on a [`Document`].
#[derive(Clone, Copy, Debug, PartialEq, Eq, Structural)]
pub enum Action {
    /// Insert one character at the cursor; a `'\n'` behaves like
    /// [`Action::InsertNewline`].
    Insert(char),
    /// Split the current line at the cursor.
    InsertNewline,
    /// Delete the character before the cursor, or the selection if one is
    /// active; a no-op at the very start of the document.
    DeleteBackward,
    /// Delete the character under the cursor, or the selection if one is
    /// active; a no-op at the very end of the document.
    DeleteForward,
    /// Move the cursor, clearing any selection.
    Move(Direction),
    /// Move the cursor while extending (or starting) a selection anchored
    /// at the cursor's old position.
    Select(Direction),
    /// Set the selection to the given anchor and head, both clamped into
    /// bounds; the cursor moves to the clamped head.
    SetSelection(Pos, Pos),
    /// Delete the selection, if one is active.
    SelectionDelete,
}

impl Action {
    /// Whether the action can change the buffer's content (as opposed to
    /// only the cursor or the selection).
    pub open spec fn is_edit_spec(self) -> bool {
        match self {
            Action::Insert(_) => true,
            Action::InsertNewline => true,
            Action::DeleteBackward => true,
            Action::DeleteForward => true,
            Action::Move(_) => false,
            Action::Select(_) => false,
            Action::SetSelection(_, _) => false,
            Action::SelectionDelete => true,
        }
    }

    /// Executable twin of [`Action::is_edit_spec`].
    pub fn is_edit(&self) -> (r: bool)
        ensures
            r == self.is_edit_spec(),
    {
        match self {
            Action::Insert(_) => true,
            Action::InsertNewline => true,
            Action::DeleteBackward => true,
            Action::DeleteForward => true,
            Action::Move(_) => false,
            Action::Select(_) => false,
            Action::SetSelection(_, _) => false,
            Action::SelectionDelete => true,
        }
    }
}

/// The mathematical value of a selection, with both ends as integers.
#[verifier::ext_equal]
pub ghost struct SelView {
    pub aline: int,
    pub acol: int,
    pub hline: int,
    pub hcol: int,
}

/// The mathematical value of a [`Document`]: the lines, the cursor, and
/// the selection.
#[verifier::ext_equal]
pub ghost struct DocView {
    pub lines: Seq<Seq<char>>,
    pub cline: int,
    pub ccol: int,
    pub sel: Option<SelView>,
}

/// `(l1, c1)` is at or before `(l2, c2)` in reading order.
pub open spec fn pos_le(l1: int, c1: int, l2: int, c2: int) -> bool {
    l1 < l2 || (l1 == l2 && c1 <= c2)
}

impl SelView {
    /// The earlier end of the selection, in reading order.
    pub open spec fn first(self) -> (int, int) {
        if pos_le(self.aline, self.acol, self.hline, self.hcol) {
            (self.aline, self.acol)
        } else {
            (self.hline, self.hcol)
        }
    }

    /// The later end of the selection, in reading order.
    pub open spec fn last(self) -> (int, int) {
        if pos_le(self.aline, self.acol, self.hline, self.hcol) {
            (self.hline, self.hcol)
        } else {
            (self.aline, self.acol)
        }
    }
}

impl DocView {
    /// `(l, c)` is a valid cursor position in this buffer.
    pub open spec fn pos_wf(self, l: int, c: int) -> bool {
        0 <= l < self.lines.len() && 0 <= c <= self.lines[l].len()
    }

    /// Well-formedness: at least one line, no line contains a newline
    /// character, and the cursor and both selection ends are in bounds.
    /// An active selection is never empty.
    pub open spec fn wf(self) -> bool {
        &&& self.lines.len() >= 1
        &&& forall|i: int, j: int|
            0 <= i < self.lines.len() && 0 <= j < self.lines[i].len() ==> self.lines[i][j] != '\n'
        &&& self.pos_wf(self.cline, self.ccol)
        &&& match self.sel {
            Some(s) => {
                &&& self.pos_wf(s.aline, s.acol)
                &&& self.pos_wf(s.hline, s.hcol)
                &&& (s.aline, s.acol) != ((s.hline, s.hcol))
                &&& (s.hline, s.hcol) == ((self.cline, self.ccol))
            },
            None => true,
        }
    }
}

/// The view of an empty document: one empty line, cursor at the origin.
pub open spec fn empty_doc_view() -> DocView {
    DocView { lines: seq![Seq::<char>::empty()], cline: 0, ccol: 0, sel: None }
}

/// The smaller of two integers.
pub open spec fn imin(a: int, b: int) -> int {
    if a <= b {
        a
    } else {
        b
    }
}

/// The buffer after deleting the span from `(sl, sc)` up to but not
/// including `(el, ec)`: the lines strictly between the two positions go
/// away and the kept pieces of the boundary lines merge into one line.
pub open spec fn remove_span_lines(
    lines: Seq<Seq<char>>,
    sl: int,
    sc: int,
    el: int,
    ec: int,
) -> Seq<Seq<char>> {
    lines.take(sl) + seq![lines[sl].take(sc) + lines[el].skip(ec)] + lines.skip(el + 1)
}

/// Deleting the active selection; the cursor lands on the span's start.
/// Without a selection this changes nothing.
pub open spec fn delete_sel_spec(d: DocView) -> DocView {
    match d.sel {
        None => d,
        Some(s) => {
            let (sl, sc) = s.first();
            let (el, ec) = s.last();
            DocView {
                lines: remove_span_lines(d.lines, sl, sc, el, ec),
                cline: sl,
                ccol: sc,
                sel: None,
            }
        },
    }
}

/// Inserting one ordinary character at the cursor.
pub open spec fn insert_char_spec(d: DocView, c: char) -> DocView {
    DocView {
        lines: d.lines.update(d.cline, d.lines[d.cline].insert(d.ccol, c)),
        cline: d.cline,
        ccol: d.ccol + 1,
        sel: None,
    }
}

/// Splitting the current line at the cursor; the cursor lands at the
/// start of the new line.
pub open spec fn newline_spec(d: DocView) -> DocView {
    let line = d.lines[d.cline];
    DocView {
        lines: d.lines.take(d.cline) + seq![line.take(d.ccol), line.skip(d.ccol)] + d.lines.skip(
            d.cline + 1,
        ),
        cline: d.cline + 1,
        ccol: 0,
        sel: None,
    }
}

/// Deleting the character before the cursor: within a line one character
/// goes away; at column 0 the line merges into the one above; at the very
/// start of the document nothing happens.
pub open spec fn backspace_spec(d: DocView) -> DocView {
    if d.ccol > 0 {
        DocView {
            lines: d.lines.update(d.cline, d.lines[d.cline].remove(d.ccol - 1)),
            cline: d.cline,
            ccol: d.ccol - 1,
            sel: None,
        }
    } else if d.cline > 0 {
        DocView {
            lines: d.lines.take(d.cline - 1) + seq![d.lines[d.cline - 1] + d.lines[d.cline]]
                + d.lines.skip(d.cline + 1),
            cline: d.cline - 1,
            ccol: d.lines[d.cline - 1].len() as int,
            sel: None,
        }
    } else {
        d
    }
}

/// Deleting the character under the cursor: within a line one character
/// goes away; at the end of a line the next line merges into it; at the
/// very end of the document nothing happens.
pub open spec fn delete_forward_spec(d: DocView) -> DocView {
    if d.ccol < d.lines[d.cline].len() {
        DocView {
            lines: d.lines.update(d.cline, d.lines[d.cline].remove(d.ccol)),
            cline: d.cline,
            ccol: d.ccol,
            sel: None,
        }
    } else if d.cline + 1 < d.lines.len() {
        DocView {
            lines: d.lines.take(d.cline) + seq![d.lines[d.cline] + d.lines[d.cline + 1]]
                + d.lines.skip(d.cline + 2),
            cline: d.cline,
            ccol: d.ccol,
            sel: None,
        }
    } else {
        d
    }
}

/// Where the cursor lands when moved in `dir`. Out-of-range movement
/// clamps to the nearest valid position.
pub open spec fn move_pos_spec(d: DocView, dir: Direction) -> (int, int) {
    match dir {
        Direction::Up => {
            let l = if d.cline > 0 {
                d.cline - 1
            } else {
                0
            };
            (l, imin(d.ccol, d.lines[l].len() as int))
        },
        Direction::Down => {
            let l = if d.cline + 1 < d.lines.len() {
                d.cline + 1
            } else {
                d.cline
            };
            (l, imin(d.ccol, d.lines[l].len() as int))
        },
        Direction::Left => {
            if d.ccol > 0 {
                (d.cline, d.ccol - 1)
            } else if d.cline > 0 {
                (d.cline - 1, d.lines[d.cline - 1].len() as int)
            } else {
                (0, 0)
            }
        },
        Direction::Right => {
            if d.ccol < d.lines[d.cline].len() {
                (d.cline, d.ccol + 1)
            } else if d.cline + 1 < d.lines.len() {
                (d.cline + 1, 0)
            } else {
                (d.cline, d.ccol)
            }
        },
        Direction::LineStart => (d.cline, 0),
        Direction::LineEnd => (d.cline, d.lines[d.cline].len() as int),
        Direction::DocumentStart => (0, 0),
        Direction::DocumentEnd => (
            d.lines.len() - 1,
            d.lines[d.lines.len() - 1].len() as int,
        ),
    }
}

/// Moving the cursor clears any selection; the buffer is untouched.
pub open spec fn move_cursor_spec(d: DocView, dir: Direction) -> DocView {
    let (l, c) = move_pos_spec(d, dir);
    DocView { lines: d.lines, cline: l, ccol: c, sel: None }
}

/// Moving while selecting: the anchor is the old anchor, or the cursor
/// when no selection was active; the head follows the cursor. A selection
/// whose ends coincide is dropped.
pub open spec fn select_spec(d: DocView, dir: Direction) -> DocView {
    let (al, ac) = match d.sel {
        Some(s) => (s.aline, s.acol),
        None => (d.cline, d.ccol),
    };
    let (l, c) = move_pos_spec(d, dir);
    DocView {
        lines: d.lines,
        cline: l,
        ccol: c,
        sel: if al == l && ac == c {
            None
        } else {
            Some(SelView { aline: al, acol: ac, hline: l, hcol: c })
        },
    }
}

/// `p` clamped into the buffer's bounds.
pub open spec fn clamp_pos_spec(d: DocView, p: Pos) -> (int, int) {
    let l = imin(p.line as int, d.lines.len() - 1);
    (l, imin(p.col as int, d.lines[l].len() as int))
}

/// Setting the selection to the given span, both ends clamped; the cursor
/// moves to the clamped head. A span whose ends coincide clears the
/// selection instead.
pub open spec fn set_selection_spec(d: DocView, anchor: Pos, head: Pos) -> DocView {
    let (al, ac) = clamp_pos_spec(d, anchor);
    let (hl, hc) = clamp_pos_spec(d, head);
    DocView {
        lines: d.lines,
        cline: hl,
        ccol: hc,
        sel: if al == hl && ac == hc {
            None
        } else {
            Some(SelView { aline: al, acol: ac, hline: hl, hcol: hc })
        },
    }
}

/// The document after applying one action. An editing action with an
/// active selection first deletes the selection: an insertion then takes
/// the selection's place, while a plain delete stops there.
pub open spec fn apply_spec(d: DocView, a: Action) -> DocView {
    match a {
        Action::Insert(c) => if c == '\n' {
            newline_spec(delete_sel_spec(d))
        } else {
            insert_char_spec(delete_sel_spec(d), c)
        },
        Action::InsertNewline => newline_spec(delete_sel_spec(d)),
        Action::DeleteBackward => if d.sel is Some {
            delete_sel_spec(d)
        } else {
            backspace_spec(d)
        },
        Action::DeleteForward => if d.sel is Some {
            delete_sel_spec(d)
        } else {
            delete_forward_spec(d)
        },
        Action::Move(dir) => move_cursor_spec(d, dir),
        Action::Select(dir) => select_spec(d, dir),
        Action::SetSelection(anchor, head) => set_selection_spec(d, anchor, head),
        Action::SelectionDelete => delete_sel_spec(d),
    }
}

/// The buffer's full content: the lines joined by newline characters.
pub open spec fn join_lines(lines: Seq<Seq<char>>) -> Seq<char>
    decreases lines.len(),
{
    if lines.len() == 0 {
        Seq::empty()
    } else if lines.len() == 1 {
        lines[0]
    } else {
        join_lines(lines.drop_last()) + seq!['\n'] + lines.last()
    }
}

/// The lines of a text, split at newline characters. A text without a
/// newline is one line; every newline ends a line, so a trailing newline
/// yields a final empty line.
pub open spec fn split_lines(s: Seq<char>) -> Seq<Seq<char>>
    decreases s.len(),
{
    if s.len() == 0 {
        seq![Seq::<char>::empty()]
    } else if s.last() == '\n' {
        split_lines(s.drop_last()).push(Seq::empty())
    } else {
        let prev = split_lines(s.drop_last());
        prev.update(prev.len() - 1, prev.last().push(s.last()))
    }
}

/// The document after replacing the whole content with `t`: the lines of
/// `t`, the cursor at the origin, no selection.
pub open spec fn replace_all_spec(t: Seq<char>) -> DocView {
    DocView { lines: split_lines(t), cline: 0, ccol: 0, sel: None }
}

/// No line of `lines` contains a newline character.
pub open spec fn lines_no_nl(lines: Seq<Seq<char>>) -> bool {
    forall|i: int, j: int|
        0 <= i < lines.len() && 0 <= j < lines[i].len() ==> lines[i][j] != '\n'
}

/// Deleting a well-formed span keeps the buffer well formed: lines
/// remain, no newline appears, and the span's start is a valid position.
pub proof fn lemma_remove_span_wf(lines: Seq<Seq<char>>, sl: int, sc: int, el: int, ec: int)
    requires
        lines.len() >= 1,
        lines_no_nl(lines),
        0 <= sl <= el < lines.len(),
        0 <= sc <= lines[sl].len(),
        0 <= ec <= lines[el].len(),
        pos_le(sl, sc, el, ec),
    ensures
        ({
            let r = remove_span_lines(lines, sl, sc, el, ec);
            &&& r.len() == lines.len() - (el - sl)
            &&& lines_no_nl(r)
            &&& 0 <= sl < r.len()
            &&& sc <= r[sl].len()
        }),
{
    let r = remove_span_lines(lines, sl, sc, el, ec);
    assert(r[sl] == lines[sl].take(sc) + lines[el].skip(ec));
    assert forall|i: int, j: int| 0 <= i < r.len() && 0 <= j < r[i].len() implies r[i][j]
        != '\n' by {
        if i < sl {
            assert(r[i] == lines[i]);
        } else if i == sl {
            assert(r[i][j] == (lines[sl].take(sc) + lines[el].skip(ec))[j]);
        } else {
            assert(r[i] == lines[i + (el - sl)]);
        }
    }
}

/// Deleting the selection keeps the document well formed.
pub proof fn lemma_delete_sel_wf(d: DocView)
    requires
        d.wf(),
    ensures
        delete_sel_spec(d).wf(),
        delete_sel_spec(d).sel is None,
{
    match d.sel {
        None => {},
        Some(s) => {
            let (sl, sc) = s.first();
            let (el, ec) = s.last();
            lemma_remove_span_wf(d.lines, sl, sc, el, ec);
        },
    }
}

/// Inserting an ordinary character keeps the document well formed.
pub proof fn lemma_insert_char_wf(d: DocView, c: char)
    requires
        d.wf(),
        c != '\n',
    ensures
        insert_char_spec(d, c).wf(),
{
    let r = insert_char_spec(d, c);
    let li = d.lines[d.cline].insert(d.ccol, c);
    assert forall|i: int, j: int| 0 <= i < r.lines.len() && 0 <= j < r.lines[i].len() implies
        r.lines[i][j] != '\n' by {
        if i == d.cline {
            assert(r.lines[i] == li);
            if j < d.ccol {
                assert(li[j] == d.lines[d.cline][j]);
            } else if j == d.ccol {
                assert(li[j] == c);
            } else {
                assert(li[j] == d.lines[d.cline][j - 1]);
            }
        } else {
            assert(r.lines[i] == d.lines[i]);
        }
    }
}

/// Splitting the current line keeps the document well formed.
pub proof fn lemma_newline_wf(d: DocView)
    requires
        d.wf(),
    ensures
        newline_spec(d).wf(),
{
    let r = newline_spec(d);
    let line = d.lines[d.cline];
    assert(r.lines.len() == d.lines.len() + 1);
    assert forall|i: int, j: int| 0 <= i < r.lines.len() && 0 <= j < r.lines[i].len() implies
        r.lines[i][j] != '\n' by {
        if i < d.cline {
            assert(r.lines[i] == d.lines[i]);
        } else if i == d.cline {
            assert(r.lines[i] == line.take(d.ccol));
        } else if i == d.cline + 1 {
            assert(r.lines[i] == line.skip(d.ccol));
        } else {
            assert(r.lines[i] == d.lines[i - 1]);
        }
    }
    assert(r.lines[d.cline + 1] == line.skip(d.ccol));
}

/// Backward deletion keeps the document well formed.
pub proof fn lemma_backspace_wf(d: DocView)
    requires
        d.wf(),
        d.sel is None,
    ensures
        backspace_spec(d).wf(),
{
    let r = backspace_spec(d);
    if d.ccol > 0 {
        assert forall|i: int, j: int| 0 <= i < r.lines.len() && 0 <= j < r.lines[i].len() implies
            r.lines[i][j] != '\n' by {
            if i == d.cline {
                assert(r.lines[i] == d.lines[d.cline].remove(d.ccol - 1));
            } else {
                assert(r.lines[i] == d.lines[i]);
            }
        }
    } else if d.cline > 0 {
        let merged = d.lines[d.cline - 1] + d.lines[d.cline];
        assert(r.lines[d.cline - 1] == merged);
        assert forall|i: int, j: int| 0 <= i < r.lines.len() && 0 <= j < r.lines[i].len() implies
            r.lines[i][j] != '\n' by {
            if i < d.cline - 1 {
                assert(r.lines[i] == d.lines[i]);
            } else if i == d.cline - 1 {
                assert(r.lines[i][j] == merged[j]);
            } else {
                assert(r.lines[i] == d.lines[i + 1]);
            }
        }
    }
}

/// Forward deletion keeps the document well formed.
pub proof fn lemma_delete_forward_wf(d: DocView)
    requires
        d.wf(),
        d.sel is None,
    ensures
        delete_forward_spec(d).wf(),
{
    let r = delete_forward_spec(d);
    if d.ccol < d.lines[d.cline].len() {
        assert forall|i: int, j: int| 0 <= i < r.lines.len() && 0 <= j < r.lines[i].len() implies
            r.lines[i][j] != '\n' by {
            if i == d.cline {
                assert(r.lines[i] == d.lines[d.cline].remove(d.ccol));
            } else {
                assert(r.lines[i] == d.lines[i]);
            }
        }
    } else if d.cline + 1 < d.lines.len() {
        let merged = d.lines[d.cline] + d.lines[d.cline + 1];
        assert(r.lines[d.cline] == merged);
        assert forall|i: int, j: int| 0 <= i < r.lines.len() && 0 <= j < r.lines[i].len() implies
            r.lines[i][j] != '\n' by {
            if i < d.cline {
                assert(r.lines[i] == d.lines[i]);
            } else if i == d.cline {
                assert(r.lines[i][j] == merged[j]);
            } else {
                assert(r.lines[i] == d.lines[i + 1]);
            }
        }
    }
}

/// Movement always lands on a valid position.
pub proof fn lemma_move_pos_wf(d: DocView, dir: Direction)
    requires
        d.wf(),
    ensures
        d.pos_wf(move_pos_spec(d, dir).0, move_pos_spec(d, dir).1),
{
}

/// Every action keeps the document well formed. In particular the cursor
/// stays within `0 <= line < number_of_lines` and
/// `0 <= column <= length_of(line)` after any sequence of actions.
pub proof fn lemma_apply_wf(d: DocView, a: Action)
    requires
        d.wf(),
    ensures
        apply_spec(d, a).wf(),
{
    lemma_delete_sel_wf(d);
    match a {
        Action::Insert(c) => {
            if c == '\n' {
                lemma_newline_wf(delete_sel_spec(d));
            } else {
                lemma_insert_char_wf(delete_sel_spec(d), c);
            }
        },
        Action::InsertNewline => {
            lemma_newline_wf(delete_sel_spec(d));
        },
        Action::DeleteBackward => {
            if d.sel is None {
                lemma_backspace_wf(d);
            }
        },
        Action::DeleteForward => {
            if d.sel is None {
                lemma_delete_forward_wf(d);
            }
        },
        Action::Move(dir) => {
            lemma_move_pos_wf(d, dir);
        },
        Action::Select(dir) => {
            lemma_move_pos_wf(d, dir);
        },
        Action::SetSelection(anchor, head) => {
        },
        Action::SelectionDelete => {
        },
    }
}

/// The document after applying a sequence of actions, in order.
pub open spec fn apply_all_spec(d: DocView, actions: Seq<Action>) -> DocView
    decreases actions.len(),
{
    if actions.len() == 0 {
        d
    } else {
        apply_all_spec(apply_spec(d, actions[0]), actions.skip(1))
    }
}

/// Any sequence of actions keeps the document well formed: after each
/// step the cursor's line is within the buffer and its column within the
/// line.
pub proof fn lemma_apply_all_wf(d: DocView, actions: Seq<Action>)
    requires
        d.wf(),
    ensures
        apply_all_spec(d, actions).wf(),
    decreases actions.len(),
{
    if actions.len() > 0 {
        lemma_apply_wf(d, actions[0]);
        lemma_apply_all_wf(apply_spec(d, actions[0]), actions.skip(1));
    }
}

/// Backward delete at the document's start and forward delete at the
/// document's end change nothing.
pub proof fn lemma_delete_at_edges_noop(d: DocView)
    requires
        d.wf(),
        d.sel is None,
    ensures
        d.cline == 0 && d.ccol == 0 ==> apply_spec(d, Action::DeleteBackward) == d,
        d.cline == d.lines.len() - 1 && d.ccol == d.lines[d.cline].len() ==> apply_spec(
            d,
            Action::DeleteForward,
        ) == d,
{
}

/// Appending a line to a joined buffer appends a newline and that line;
/// a single line joins to itself.
pub proof fn lemma_join_push(lines: Seq<Seq<char>>, l: Seq<char>)
    ensures
        join_lines(lines.push(l)) == if lines.len() == 0 {
            l
        } else {
            join_lines(lines) + seq!['\n'] + l
        },
{
    let p = lines.push(l);
    assert(p.drop_last() =~= lines);
    assert(p.last() == l);
    if lines.len() == 0 {
        assert(join_lines(p) == p[0]);
    }
}

/// Replacing the last line of a joined buffer replaces the joined tail.
pub proof fn lemma_join_update_last(lines: Seq<Seq<char>>, l: Seq<char>)
    requires
        lines.len() >= 1,
    ensures
        join_lines(lines.update(lines.len() - 1, l)) == if lines.len() == 1 {
            l
        } else {
            join_lines(lines.drop_last()) + seq!['\n'] + l
        },
{
    let u = lines.update(lines.len() - 1, l);
    assert(u.drop_last() =~= lines.drop_last());
    assert(u.last() == l);
    if lines.len() == 1 {
        assert(join_lines(u) == u[0]);
        assert(u[0] == l);
    }
}

/// A split is never empty: there is always at least the final line.
pub proof fn lemma_split_lines_len(s: Seq<char>)
    ensures
        split_lines(s).len() >= 1,
    decreases s.len(),
{
    if s.len() > 0 {
        lemma_split_lines_len(s.drop_last());
    }
}

/// No line of a split contains a newline character.
pub proof fn lemma_split_lines_no_nl(s: Seq<char>)
    ensures
        lines_no_nl(split_lines(s)),
    decreases s.len(),
{
    let r = split_lines(s);
    if s.len() == 0 {
        assert forall|i: int, j: int| 0 <= i < r.len() && 0 <= j < r[i].len() implies r[i][j]
            != '\n' by {}
    } else {
        lemma_split_lines_no_nl(s.drop_last());
        lemma_split_lines_len(s.drop_last());
        let prev = split_lines(s.drop_last());
        if s.last() == '\n' {
            assert forall|i: int, j: int| 0 <= i < r.len() && 0 <= j < r[i].len() implies r[i][j]
                != '\n' by {
                if i < prev.len() {
                    assert(r[i] == prev[i]);
                }
            }
        } else {
            assert forall|i: int, j: int| 0 <= i < r.len() && 0 <= j < r[i].len() implies r[i][j]
                != '\n' by {
                if i == prev.len() - 1 {
                    assert(r[i] == prev.last().push(s.last()));
                } else {
                    assert(r[i] == prev[i]);
                }
            }
        }
    }
}

/// Splitting a text into lines and joining them again returns the text:
/// `replace_all` followed by `text` reproduces the replacement text.
pub proof fn lemma_join_split_round_trip(t: Seq<char>)
    ensures
        join_lines(split_lines(t)) == t,
        join_lines(replace_all_spec(t).lines) == t,
    decreases t.len(),
{
    if t.len() == 0 {
        assert(join_lines(split_lines(t)) =~= t);
    } else {
        lemma_join_split_round_trip(t.drop_last());
        lemma_split_lines_len(t.drop_last());
        let prev = split_lines(t.drop_last());
        if t.last() == '\n' {
            lemma_join_push(prev, Seq::<char>::empty());
            assert(join_lines(split_lines(t)) == join_lines(prev) + seq!['\n']
                + Seq::<char>::empty());
            assert((join_lines(prev) + seq!['\n'] + Seq::<char>::empty()) =~= t.drop_last().push(
                '\n',
            ));
            assert(t =~= t.drop_last().push('\n'));
        } else {
            let l = prev.last().push(t.last());
            lemma_join_update_last(prev, l);
            if prev.len() == 1 {
                assert(join_lines(prev) == prev.last());
                assert(join_lines(split_lines(t)) =~= t);
            } else {
                assert(join_lines(prev) == join_lines(prev.drop_last()) + seq!['\n']
                    + prev.last());
                assert(join_lines(split_lines(t)) == join_lines(prev.drop_last()) + seq!['\n']
                    + l);
                assert(t =~= t.drop_last().push(t.last()));
                assert(join_lines(split_lines(t)) =~= t);
            }
        }
    }
}

/// The in-memory text buffer plus cursor and selection state.
pub struct Document {
    lines: Vec<Vec<char>>,
    cursor: Pos,
    sel: Option<Selection>,
}

/// Relies on `String::push`: appends exactly the given character at the
/// end of the string.
#[verifier::external_body]
pub(crate) fn push_char(s: &mut String, c: char)
    ensures
        final(s)@ == old(s)@.push(c),
{
    s.push(c)
}

/// The characters of a string, as a vector.
pub(crate) fn chars_of(s: &str) -> (r: Vec<char>)
    ensures
        r@ == s@,
{
    let mut out: Vec<char> = Vec::new();
    let mut it = s.chars();
    proof {
        assert(out@ + it.remaining() =~= s@);
    }
    loop
        invariant
            it.decrease() is Some,
            out@ + it.remaining() == s@,
        ensures
            out@ == s@,
        decreases it.decrease()->0,
    {
        match it.next() {
            Some(c) => {
                out.push(c);
                proof {
                    assert(out@ + it.remaining() =~= s@);
                }
            },
            None => {
                proof {
                    assert(out@ + it.remaining() =~= out@);
                }
                break ;
            },
        }
    }
    out
}

/// A string holding exactly the given characters.
pub(crate) fn string_from_chars(v: &Vec<char>) -> (r: String)
    ensures
        r@ == v@,
{
    let mut out = String::new();
    let mut k: usize = 0;
    while k < v.len()
        invariant
            k <= v@.len(),
            out@ == v@.take(k as int),
        decreases v@.len() - k,
    {
        push_char(&mut out, v[k]);
        proof {
            assert(v@.take(k + 1) =~= v@.take(k as int).push(v@[k as int]));
        }
        k += 1;
    }
    proof {
        assert(v@.take(v@.len() as int) =~= v@);
    }
    out
}

impl View for Document {
    type V = DocView;

    closed spec fn view(&self) -> DocView {
        DocView {
            lines: self.lines@.map_values(|l: Vec<char>| l@),
            cline: self.cursor.line as int,
            ccol: self.cursor.col as int,
            sel: match self.sel {
                Some(s) => Some(
                    SelView {
                        aline: s.anchor.line as int,
                        acol: s.anchor.col as int,
                        hline: s.head.line as int,
                        hcol: s.head.col as int,
                    },
                ),
                None => None,
            },
        }
    }
}

impl Document {
    /// An empty document: a single empty line, cursor at `(0, 0)`, no
    /// selection.
    pub fn new() -> (d: Document)
        ensures
            d@ == empty_doc_view(),
            d@.wf(),
    {
        let mut lines: Vec<Vec<char>> = Vec::new();
        lines.push(Vec::new());
        let d = Document { lines, cursor: Pos { line: 0, col: 0 }, sel: None };
        proof {
            assert(d@.lines =~= empty_doc_view().lines);
            assert(d@ =~~= empty_doc_view());
        }
        d
    }

    /// The cursor's 0-based `(line, column)` pair.
    pub fn cursor_position(&self) -> (r: (usize, usize))
        ensures
            r.0 as int == self@.cline,
            r.1 as int == self@.ccol,
    {
        (self.cursor.line, self.cursor.col)
    }

    /// Where the cursor lands when moved in `dir`, without moving it.
    fn move_pos(&self, dir: Direction) -> (r: (usize, usize))
        requires
            self@.wf(),
        ensures
            r.0 as int == move_pos_spec(self@, dir).0,
            r.1 as int == move_pos_spec(self@, dir).1,
    {
        match dir {
            Direction::Up => {
                let l = if self.cursor.line > 0 {
                    self.cursor.line - 1
                } else {
                    0
                };
                let n = self.lines[l].len();
                (
                    l,
                    if self.cursor.col <= n {
                        self.cursor.col
                    } else {
                        n
                    },
                )
            },
            Direction::Down => {
                let nlines = self.lines.len();
                let l = if self.cursor.line + 1 < nlines {
                    self.cursor.line + 1
                } else {
                    self.cursor.line
                };
                let n = self.lines[l].len();
                (
                    l,
                    if self.cursor.col <= n {
                        self.cursor.col
                    } else {
                        n
                    },
                )
            },
            Direction::Left => {
                if self.cursor.col > 0 {
                    (self.cursor.line, self.cursor.col - 1)
                } else if self.cursor.line > 0 {
                    (self.cursor.line - 1, self.lines[self.cursor.line - 1].len())
                } else {
                    (0, 0)
                }
            },
            Direction::Right => {
                let nlines = self.lines.len();
                if self.cursor.col < self.lines[self.cursor.line].len() {
                    (self.cursor.line, self.cursor.col + 1)
                } else if self.cursor.line + 1 < nlines {
                    (self.cursor.line + 1, 0)
                } else {
                    (self.cursor.line, self.cursor.col)
                }
            },
            Direction::LineStart => (self.cursor.line, 0),
            Direction::LineEnd => (self.cursor.line, self.lines[self.cursor.line].len()),
            Direction::DocumentStart => (0, 0),
            Direction::DocumentEnd => {
                let l = self.lines.len() - 1;
                (l, self.lines[l].len())
            },
        }
    }

    /// `p` clamped into the buffer's bounds.
    fn clamp(&self, p: Pos) -> (r: Pos)
        requires
            self@.wf(),
        ensures
            r.line as int == clamp_pos_spec(self@, p).0,
            r.col as int == clamp_pos_spec(self@, p).1,
    {
        let last = self.lines.len() - 1;
        let l = if p.line <= last {
            p.line
        } else {
            last
        };
        let n = self.lines[l].len();
        Pos {
            line: l,
            col: if p.col <= n {
                p.col
            } else {
                n
            },
        }
    }

    /// Delete the active selection, if any; the cursor lands on the
    /// deleted span's start.
    #[verifier::rlimit(50)]
    fn delete_selection(&mut self)
        requires
            old(self)@.wf(),
        ensures
            final(self)@ == delete_sel_spec(old(self)@),
    {
        match self.sel {
            None => {},
            Some(s) => {
                let a = s.anchor;
                let h = s.head;
                let (fst, lst) = if a.line < h.line || (a.line == h.line && a.col <= h.col) {
                    (a, h)
                } else {
                    (h, a)
                };
                let sl = fst.line;
                let sc = fst.col;
                let el = lst.line;
                let ec = lst.col;
                proof {
                    let sv = SelView {
                        aline: a.line as int,
                        acol: a.col as int,
                        hline: h.line as int,
                        hcol: h.col as int,
                    };
                    assert(old(self)@.sel == Some(sv));
                    assert(sv.first() == ((sl as int, sc as int)));
                    assert(sv.last() == ((el as int, ec as int)));
                }
                if sl == el {
                    let mut line = self.lines.remove(sl);
                    let mut tail = line.split_off(ec);
                    line.truncate(sc);
                    line.append(&mut tail);
                    self.lines.insert(sl, line);
                } else {
                    let mut first_line = self.lines.remove(sl);
                    first_line.truncate(sc);
                    let mut last_line = self.lines.remove(el - 1);
                    let mut tail = last_line.split_off(ec);
                    first_line.append(&mut tail);
                    let ghost b = self.lines@;
                    proof {
                        assert(b.take(sl as int) + b.skip(sl as int) =~= b);
                    }
                    let mut k: usize = 0;
                    while k < el - 1 - sl
                        invariant
                            k <= el - 1 - sl,
                            sl + 1 <= el <= b.len() + 1,
                            self.lines@ == b.take(sl as int) + b.skip(sl + k),
                        decreases el - 1 - sl - k,
                    {
                        proof {
                            assert((b.take(sl as int) + b.skip(sl + k)).remove(sl as int) =~= b.take(
                                sl as int,
                            ) + b.skip(sl + k + 1));
                        }
                        let _ = self.lines.remove(sl);
                        k += 1;
                    }
                    self.lines.insert(sl, first_line);
                }
                self.cursor = Pos { line: sl, col: sc };
                self.sel = None;
                proof {
                    assert(self@.lines =~~= remove_span_lines(
                        old(self)@.lines,
                        sl as int,
                        sc as int,
                        el as int,
                        ec as int,
                    ));
                    assert(self@ =~~= delete_sel_spec(old(self)@));
                }
            },
        }
    }

    /// Insert one ordinary character at the cursor.
    fn insert_char_at(&mut self, c: char)
        requires
            old(self)@.wf(),
            old(self)@.sel is None,
            c != '\n',
        ensures
            final(self)@ == insert_char_spec(old(self)@, c),
    {
        let mut line = self.lines.remove(self.cursor.line);
        line.insert(self.cursor.col, c);
        // The grown line's length fits in usize: lets `col + 1` not overflow.
        let n = line.len();
        proof {
            assert(line@.len() == n as int);
        }
        self.lines.insert(self.cursor.line, line);
        self.cursor = Pos { line: self.cursor.line, col: self.cursor.col + 1 };
        proof {
            assert(self@.lines =~~= insert_char_spec(old(self)@, c).lines);
            assert(self@ =~~= insert_char_spec(old(self)@, c));
        }
    }

    /// Split the current line at the cursor.
    fn insert_newline_at(&mut self)
        requires
            old(self)@.wf(),
            old(self)@.sel is None,
        ensures
            final(self)@ == newline_spec(old(self)@),
    {
        let nlines = self.lines.len();
        let mut line = self.lines.remove(self.cursor.line);
        let tail = line.split_off(self.cursor.col);
        self.lines.insert(self.cursor.line, line);
        proof {
            assert(self.cursor.line < nlines);
        }
        self.lines.insert(self.cursor.line + 1, tail);
        self.cursor = Pos { line: self.cursor.line + 1, col: 0 };
        proof {
            assert(self@.lines =~~= newline_spec(old(self)@).lines);
            assert(self@ =~~= newline_spec(old(self)@));
        }
    }

    /// Delete the character before the cursor; a no-op at `(0, 0)`.
    fn delete_backward_at(&mut self)
        requires
            old(self)@.wf(),
            old(self)@.sel is None,
        ensures
            final(self)@ == backspace_spec(old(self)@),
    {
        if self.cursor.col > 0 {
            let mut line = self.lines.remove(self.cursor.line);
            let _ = line.remove(self.cursor.col - 1);
            self.lines.insert(self.cursor.line, line);
            self.cursor = Pos { line: self.cursor.line, col: self.cursor.col - 1 };
            proof {
                assert(self@.lines =~~= backspace_spec(old(self)@).lines);
                assert(self@ =~~= backspace_spec(old(self)@));
            }
        } else if self.cursor.line > 0 {
            let mut cur = self.lines.remove(self.cursor.line);
            let mut prev = self.lines.remove(self.cursor.line - 1);
            let new_col = prev.len();
            prev.append(&mut cur);
            self.lines.insert(self.cursor.line - 1, prev);
            self.cursor = Pos { line: self.cursor.line - 1, col: new_col };
            proof {
                assert(self@.lines =~~= backspace_spec(old(self)@).lines);
                assert(self@ =~~= backspace_spec(old(self)@));
            }
        }
    }

    /// Delete the character under the cursor; a no-op at the document's
    /// end.
    fn delete_forward_at(&mut self)
        requires
            old(self)@.wf(),
            old(self)@.sel is None,
        ensures
            final(self)@ == delete_forward_spec(old(self)@),
    {
        let nlines = self.lines.len();
        if self.cursor.col < self.lines[self.cursor.line].len() {
            let mut line = self.lines.remove(self.cursor.line);
            let _ = line.remove(self.cursor.col);
            self.lines.insert(self.cursor.line, line);
            proof {
                assert(self@.lines =~~= delete_forward_spec(old(self)@).lines);
                assert(self@ =~~= delete_forward_spec(old(self)@));
            }
        } else if self.cursor.line + 1 < nlines {
            let mut next = self.lines.remove(self.cursor.line + 1);
            let mut cur = self.lines.remove(self.cursor.line);
            cur.append(&mut next);
            self.lines.insert(self.cursor.line, cur);
            proof {
                assert(self@.lines =~~= delete_forward_spec(old(self)@).lines);
                assert(self@ =~~= delete_forward_spec(old(self)@));
            }
        }
    }

    /// Move the cursor, clearing any selection.
    fn move_cursor(&mut self, dir: Direction)
        requires
            old(self)@.wf(),
        ensures
            final(self)@ == move_cursor_spec(old(self)@, dir),
    {
        let (l, c) = self.move_pos(dir);
        self.cursor = Pos { line: l, col: c };
        self.sel = None;
        proof {
            assert(self@ =~~= move_cursor_spec(old(self)@, dir));
        }
    }

    /// Move the cursor while extending (or starting) a selection.
    fn select_move(&mut self, dir: Direction)
        requires
            old(self)@.wf(),
        ensures
            final(self)@ == select_spec(old(self)@, dir),
    {
        let anchor = match self.sel {
            Some(s) => s.anchor,
            None => self.cursor,
        };
        let (l, c) = self.move_pos(dir);
        let h = Pos { line: l, col: c };
        self.cursor = h;
        self.sel = if anchor.line == l && anchor.col == c {
            None
        } else {
            Some(Selection { anchor, head: h })
        };
        proof {
            assert(self@ =~~= select_spec(old(self)@, dir));
        }
    }

    /// Set the selection to the given span, clamped into bounds.
    fn set_selection_at(&mut self, anchor: Pos, head: Pos)
        requires
            old(self)@.wf(),
        ensures
            final(self)@ == set_selection_spec(old(self)@, anchor, head),
    {
        let a = self.clamp(anchor);
        let h = self.clamp(head);
        self.cursor = h;
        self.sel = if a.line == h.line && a.col == h.col {
            None
        } else {
            Some(Selection { anchor: a, head: h })
        };
        proof {
            assert(self@ =~~= set_selection_spec(old(self)@, anchor, head));
        }
    }

    /// Apply one action; never fails. Out-of-range movement clamps to
    /// valid bounds, and a delete at the document's edge is a no-op. The
    /// cursor and the selection always stay within the buffer.
    pub fn apply(&mut self, action: Action)
        requires
            old(self)@.wf(),
        ensures
            final(self)@ == apply_spec(old(self)@, action),
            final(self)@.wf(),
    {
        proof {
            lemma_apply_wf(old(self)@, action);
            lemma_delete_sel_wf(old(self)@);
        }
        match action {
            Action::Insert(c) => {
                self.delete_selection();
                if c == '\n' {
                    self.insert_newline_at();
                } else {
                    self.insert_char_at(c);
                }
            },
            Action::InsertNewline => {
                self.delete_selection();
                self.insert_newline_at();
            },
            Action::DeleteBackward => {
                if self.sel.is_some() {
                    self.delete_selection();
                } else {
                    self.delete_backward_at();
                }
            },
            Action::DeleteForward => {
                if self.sel.is_some() {
                    self.delete_selection();
                } else {
                    self.delete_forward_at();
                }
            },
            Action::Move(dir) => {
                self.move_cursor(dir);
            },
            Action::Select(dir) => {
                self.select_move(dir);
            },
            Action::SetSelection(a, h) => {
                self.set_selection_at(a, h);
            },
            Action::SelectionDelete => {
                self.delete_selection();
            },
        }
    }

    /// The buffer's full content, newline-joined, as it is written on a
    /// save.
    pub fn text(&self) -> (r: String)
        ensures
            r@ == join_lines(self@.lines),
    {
        let mut out = String::new();
        let mut i: usize = 0;
        while i < self.lines.len()
            invariant
                i <= self@.lines.len(),
                out@ == join_lines(self@.lines.take(i as int)),
            decreases self@.lines.len() - i,
        {
            if i > 0 {
                push_char(&mut out, '\n');
            }
            let ghost pre = out@;
            let mut j: usize = 0;
            while j < self.lines[i].len()
                invariant
                    i < self@.lines.len(),
                    j <= self@.lines[i as int].len(),
                    i == 0 ==> pre == Seq::<char>::empty(),
                    i > 0 ==> pre == join_lines(self@.lines.take(i as int)) + seq!['\n'],
                    out@ == pre + self@.lines[i as int].take(j as int),
                decreases self@.lines[i as int].len() - j,
            {
                let c = self.lines[i][j];
                push_char(&mut out, c);
                proof {
                    assert(self@.lines[i as int].take(j + 1) =~= self@.lines[i as int].take(
                        j as int,
                    ).push(c));
                    assert(out@ =~= pre + self@.lines[i as int].take(j + 1));
                }
                j += 1;
            }
            proof {
                let ls = self@.lines;
                assert(ls[i as int].take(ls[i as int].len() as int) =~= ls[i as int]);
                lemma_join_push(ls.take(i as int), ls[i as int]);
                assert(ls.take(i as int).push(ls[i as int]) =~= ls.take(i + 1));
                assert(out@ =~= join_lines(ls.take(i + 1)));
            }
            i += 1;
        }
        proof {
            assert(self@.lines.take(self@.lines.len() as int) =~= self@.lines);
        }
        out
    }

    /// Reset the buffer to the lines of `text`; the cursor moves to the
    /// origin and the selection is cleared.
    pub fn replace_all(&mut self, text: &str)
        ensures
            final(self)@ == replace_all_spec(text@),
            final(self)@.wf(),
    {
        let mut lines: Vec<Vec<char>> = Vec::new();
        let mut cur: Vec<char> = Vec::new();
        let mut it = text.chars();
        let ghost mut consumed: Seq<char> = Seq::empty();
        proof {
            assert(consumed + it.remaining() =~= text@);
            assert(lines@.map_values(|l: Vec<char>| l@).push(cur@) =~= split_lines(consumed));
        }
        loop
            invariant
                it.decrease() is Some,
                consumed + it.remaining() == text@,
                lines@.map_values(|l: Vec<char>| l@).push(cur@) == split_lines(consumed),
            ensures
                consumed == text@,
                lines@.map_values(|l: Vec<char>| l@).push(cur@) == split_lines(consumed),
            decreases it.decrease()->0,
        {
            let c_opt = it.next();
            match c_opt {
                Some(c) => {
                    let ghost prev = consumed;
                    let ghost lm = lines@.map_values(|l: Vec<char>| l@);
                    let ghost cv = cur@;
                    proof {
                        consumed = consumed.push(c);
                        assert(consumed.drop_last() =~= prev);
                        assert(consumed.last() == c);
                    }
                    if c == '\n' {
                        lines.push(cur);
                        cur = Vec::new();
                        proof {
                            assert(split_lines(consumed) == split_lines(prev).push(
                                Seq::<char>::empty(),
                            ));
                            assert(lines@.map_values(|l: Vec<char>| l@).push(cur@)
                                =~= split_lines(prev).push(Seq::<char>::empty()));
                        }
                    } else {
                        cur.push(c);
                        proof {
                            let ps = split_lines(prev);
                            lemma_split_lines_len(prev);
                            assert(split_lines(consumed) == ps.update(
                                ps.len() - 1,
                                ps.last().push(c),
                            ));
                            assert(lm.push(cv).last() == cv);
                            assert(lines@.map_values(|l: Vec<char>| l@).push(cur@) =~= ps.update(
                                ps.len() - 1,
                                ps.last().push(c),
                            ));
                        }
                    }
                    proof {
                        assert(consumed + it.remaining() =~= text@);
                    }
                },
                None => {
                    proof {
                        assert(consumed + it.remaining() =~= consumed);
                    }
                    break;
                },
            }
        }
        lines.push(cur);
        self.lines = lines;
        self.cursor = Pos { line: 0, col: 0 };
        self.sel = None;
        proof {
            lemma_split_lines_len(text@);
            lemma_split_lines_no_nl(text@);
            assert(self@.lines =~~= split_lines(text@));
            assert(self@ =~~= replace_all_spec(text@));
        }
    }

    /// The active selection, if any.
    pub fn selection(&self) -> (r: Option<Selection>)
        ensures
            match r {
                Some(s) => self@.sel == Some(
                    SelView {
                        aline: s.anchor.line as int,
                        acol: s.anchor.col as int,
                        hline: s.head.line as int,
                        hcol: s.head.col as int,
                    },
                ),
                None => self@.sel is None,
            },
    {
        self.sel
    }
}

} // verus!
