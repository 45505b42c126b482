use crate::buffer::Buffer;
use crate::event::{Event, Mode, Motion, Operator};
use vstd::prelude::*;

verus! {

/// The abstract state of the editor core: the text as a sequence of lines of
/// characters, the cursor, the mode, the secondary (yank/delete) buffer, and
/// the advisory viewport dimensions.
#[verifier::ext_equal]
pub ghost struct EditorView {
    pub lines: Seq<Seq<char>>,
    pub cr: int,
    pub cc: int,
    pub mode: Mode,
    pub paste: Seq<Seq<char>>,
    pub width: int,
    pub height: int,
}

/// The editor core: owns the text buffer, the cursor, the current mode and
/// the secondary buffer that holds the most recent operator result.
pub struct Editor {
    width: u16,
    height: u16,
    cc: usize,
    cr: usize,
    mode: Mode,
    buffer: Buffer,
    paste_buffer: Buffer,
}

impl View for Editor {
    type V = EditorView;

    closed spec fn view(&self) -> EditorView {
        EditorView {
            lines: self.buffer@,
            cr: self.cr as int,
            cc: self.cc as int,
            mode: self.mode,
            paste: self.paste_buffer@,
            width: self.width as int,
            height: self.height as int,
        }
    }
}

/// The state invariant: the buffer is never empty, the cursor row names an
/// existing line, and the cursor column is at most that line's length (it may
/// equal it, denoting the position after the last character). The secondary
/// buffer is likewise never empty.
pub open spec fn view_inv(v: EditorView) -> bool {
    &&& v.lines.len() >= 1
    &&& 0 <= v.cr < v.lines.len()
    &&& 0 <= v.cc <= v.lines[v.cr].len()
    &&& v.paste.len() >= 1
}

/// The state of a freshly constructed editor: one empty line, cursor at the
/// origin, Normal mode, an empty secondary buffer, and no viewport yet.
pub open spec fn init_view() -> EditorView {
    EditorView {
        lines: seq![Seq::<char>::empty()],
        cr: 0,
        cc: 0,
        mode: Mode::Normal,
        paste: seq![Seq::<char>::empty()],
        width: 0,
        height: 0,
    }
}

pub uninterp spec fn is_alphanum(c: char) -> bool;

/// Relies on char::is_alphanumeric: whether the character counts as
/// alphanumeric under Unicode's classification, a function of the character
/// alone. ASCII letters and digits plainly are alphanumeric; space and tab
/// plainly are not.
#[verifier::external_body]
fn char_is_alphanumeric(c: char) -> (r: bool)
    ensures
        r == is_alphanum(c),
        ('a' as int <= c as int <= 'z' as int) || ('A' as int <= c as int <= 'Z' as int) || ('0'
            as int <= c as int <= '9' as int) ==> r,
        c == ' ' ==> !r,
        c == '\t' ==> !r,
{
    c.is_alphanumeric()
}

/// The four spaces that a literal tab expands to.
pub open spec fn tab_spaces() -> Seq<char> {
    seq![' ', ' ', ' ', ' ']
}

/// Literal insertion at the cursor. A tab inserts four spaces and advances
/// the column by four; an alphanumeric character or a space inserts itself
/// and advances the column by one; any other character is silently dropped.
pub open spec fn write_step(v: EditorView, c: char) -> EditorView {
    let line = v.lines[v.cr];
    if c == '\t' {
        let line2 = line.subrange(0, v.cc) + tab_spaces() + line.subrange(v.cc, line.len() as int);
        EditorView { lines: v.lines.update(v.cr, line2), cc: v.cc + 4, ..v }
    } else if is_alphanum(c) || c == ' ' {
        EditorView { lines: v.lines.update(v.cr, line.insert(v.cc, c)), cc: v.cc + 1, ..v }
    } else {
        v
    }
}

/// Line split at the cursor: the left part stays at the current row, the
/// right part becomes a new line immediately after, and the cursor moves to
/// the start of the new line.
pub open spec fn enter_step(v: EditorView) -> EditorView {
    let line = v.lines[v.cr];
    let left = line.subrange(0, v.cc);
    let right = line.subrange(v.cc, line.len() as int);
    EditorView {
        lines: v.lines.update(v.cr, left).insert(v.cr + 1, right),
        cr: v.cr + 1,
        cc: 0,
        ..v
    }
}

/// Deletion to the left of the cursor. At the start of a line (or on an empty
/// line) that is not the first, the current line is merged onto the end of
/// the previous one and the cursor moves to the join point; otherwise, with a
/// positive column, the character to the left is removed; at the very start
/// of the buffer nothing happens.
pub open spec fn backspace_step(v: EditorView) -> EditorView {
    let line = v.lines[v.cr];
    if (line.len() == 0 || v.cc == 0) && v.cr > 0 {
        EditorView {
            lines: v.lines.remove(v.cr).update(v.cr - 1, v.lines[v.cr - 1] + line),
            cr: v.cr - 1,
            cc: v.lines[v.cr - 1].len() as int,
            ..v
        }
    } else if v.cc > 0 {
        EditorView { lines: v.lines.update(v.cr, line.remove(v.cc - 1)), cc: v.cc - 1, ..v }
    } else {
        v
    }
}

/// A column clamped to the length of the line it lands on.
pub open spec fn clamp_col(cc: int, len: int) -> int {
    if cc > len {
        len
    } else {
        cc
    }
}

/// The index of the first space at or after position `i` on a line, or the
/// line's length if there is none.
pub open spec fn next_space(line: Seq<char>, i: int) -> int
    decreases line.len() - i,
{
    if i >= line.len() {
        line.len() as int
    } else if line[i] == ' ' {
        i
    } else {
        next_space(line, i + 1)
    }
}

/// One application of a motion to the cursor. Rows are floored at the first
/// line and ceiled at the last; after a row change the column is clamped to
/// the new line's length. `Word` advances to the next space on the current
/// row, or to its end, and never crosses a line boundary.
pub open spec fn motion_once(lines: Seq<Seq<char>>, cr: int, cc: int, m: Motion) -> (int, int) {
    match m {
        Motion::Up => {
            let r = if cr > 0 {
                cr - 1
            } else {
                0
            };
            (r, clamp_col(cc, lines[r].len() as int))
        },
        Motion::Down => {
            let r = if cr + 1 < lines.len() {
                cr + 1
            } else {
                lines.len() - 1
            };
            (r, clamp_col(cc, lines[r].len() as int))
        },
        Motion::Left => (
            cr,
            if cc > 0 {
                cc - 1
            } else {
                0
            },
        ),
        Motion::Right => (
            cr,
            if cc + 1 <= lines[cr].len() {
                cc + 1
            } else {
                lines[cr].len() as int
            },
        ),
        Motion::Start => (cr, 0),
        Motion::End => (cr, lines[cr].len() as int),
        Motion::Word => (cr, next_space(lines[cr], cc)),
    }
}

/// A motion applied `n` times in sequence, clamping between repetitions.
pub open spec fn motion_iter(lines: Seq<Seq<char>>, cr: int, cc: int, m: Motion, n: nat) -> (
    int,
    int,
)
    decreases n,
{
    if n == 0 {
        (cr, cc)
    } else {
        let p = motion_iter(lines, cr, cc, m, (n - 1) as nat);
        motion_once(lines, p.0, p.1, m)
    }
}

/// A position that names an existing line, with a column at most that line's
/// length.
pub open spec fn valid_pos(lines: Seq<Seq<char>>, p: (int, int)) -> bool {
    0 <= p.0 < lines.len() && 0 <= p.1 <= lines[p.0].len()
}

pub proof fn lemma_next_space_bounds(line: Seq<char>, i: int)
    requires
        0 <= i <= line.len(),
    ensures
        i <= next_space(line, i) <= line.len(),
    decreases line.len() - i,
{
    if i < line.len() && line[i] != ' ' {
        lemma_next_space_bounds(line, i + 1);
    }
}

pub proof fn lemma_motion_once_valid(lines: Seq<Seq<char>>, cr: int, cc: int, m: Motion)
    requires
        lines.len() >= 1,
        valid_pos(lines, (cr, cc)),
    ensures
        valid_pos(lines, motion_once(lines, cr, cc, m)),
{
    if m is Word {
        lemma_next_space_bounds(lines[cr], cc);
    }
}

pub proof fn lemma_motion_iter_valid(lines: Seq<Seq<char>>, cr: int, cc: int, m: Motion, n: nat)
    requires
        lines.len() >= 1,
        valid_pos(lines, (cr, cc)),
    ensures
        valid_pos(lines, motion_iter(lines, cr, cc, m, n)),
    decreases n,
{
    if n > 0 {
        lemma_motion_iter_valid(lines, cr, cc, m, (n - 1) as nat);
        let p = motion_iter(lines, cr, cc, m, (n - 1) as nat);
        lemma_motion_once_valid(lines, p.0, p.1, m);
    }
}

/// Whether position `a` comes no later than `b` in reading order.
pub open spec fn pos_le(a: (int, int), b: (int, int)) -> bool {
    a.0 < b.0 || (a.0 == b.0 && a.1 <= b.1)
}

/// The text swept by the half-open range `[lo, hi)`, as a sequence of lines:
/// the tail of the first line, every fully enclosed line, and the head of the
/// last line. Within a single row, just the fragment between the columns.
pub open spec fn extract_lines(lines: Seq<Seq<char>>, lo: (int, int), hi: (int, int)) -> Seq<
    Seq<char>,
> {
    if lo.0 == hi.0 {
        seq![lines[lo.0].subrange(lo.1, hi.1)]
    } else {
        seq![lines[lo.0].subrange(lo.1, lines[lo.0].len() as int)] + lines.subrange(lo.0 + 1, hi.0)
            + seq![lines[hi.0].subrange(0, hi.1)]
    }
}

/// The buffer with the half-open range `[lo, hi)` removed: the head of the
/// first line is joined to the tail of the last, and every fully enclosed
/// line disappears. The result always keeps at least the joined line, so the
/// buffer never becomes empty.
pub open spec fn remove_range(lines: Seq<Seq<char>>, lo: (int, int), hi: (int, int)) -> Seq<
    Seq<char>,
> {
    if lo.0 == hi.0 {
        lines.update(
            lo.0,
            lines[lo.0].subrange(0, lo.1) + lines[lo.0].subrange(hi.1, lines[lo.0].len() as int),
        )
    } else {
        lines.subrange(0, lo.0) + seq![
            lines[lo.0].subrange(0, lo.1) + lines[hi.0].subrange(hi.1, lines[hi.0].len() as int),
        ] + lines.subrange(hi.0 + 1, lines.len() as int)
    }
}

/// An operator applied over the range swept by a motion, normalized so that
/// the lower position comes first. `Yank` copies the swept text into the
/// secondary buffer; `Delete` also removes it from the buffer and moves the
/// cursor to the start of the range. The secondary buffer is overwritten
/// either way.
pub open spec fn operate(v: EditorView, op: Operator, start: (int, int), end: (int, int)) -> EditorView {
    let lo = if pos_le(start, end) {
        start
    } else {
        end
    };
    let hi = if pos_le(start, end) {
        end
    } else {
        start
    };
    match op {
        Operator::Yank => EditorView { paste: extract_lines(v.lines, lo, hi), ..v },
        Operator::Delete => EditorView {
            lines: remove_range(v.lines, lo, hi),
            cr: lo.0,
            cc: lo.1,
            paste: extract_lines(v.lines, lo, hi),
            ..v
        },
    }
}

pub proof fn lemma_operate_inv(v: EditorView, op: Operator, start: (int, int), end: (int, int))
    requires
        view_inv(v),
        valid_pos(v.lines, start),
        valid_pos(v.lines, end),
    ensures
        view_inv(operate(v, op, start, end)),
{
}

/// A `Motion` action: the motion, if any, is applied `mult` times; then the
/// operator, if any, is applied over the range from the cursor position
/// before the motion to the position after it.
pub open spec fn motion_step(v: EditorView, op: Option<Operator>, mult: u8, motion: Option<
    Motion,
>) -> EditorView {
    let moved = match motion {
        Some(m) => {
            let p = motion_iter(v.lines, v.cr, v.cc, m, mult as nat);
            EditorView { cr: p.0, cc: p.1, ..v }
        },
        None => v,
    };
    match op {
        Some(o) => operate(moved, o, (v.cr, v.cc), (moved.cr, moved.cc)),
        None => moved,
    }
}

/// The whole editor-core state machine: what one resolved event does to the
/// state. `Quit` and an absent motion leave the state unchanged; `ChangeMode`
/// and `WindowResize` touch only the mode and the viewport.
pub open spec fn step(v: EditorView, ev: Event) -> EditorView {
    match ev {
        Event::Quit => v,
        Event::ChangeMode(m) => EditorView { mode: m, ..v },
        Event::Write(c) => write_step(v, c),
        Event::BackSpace => backspace_step(v),
        Event::Enter => enter_step(v),
        Event::Motion { op, mult, motion } => motion_step(v, op, mult, motion),
        Event::WindowResize(w, h) => EditorView { width: w as int, height: h as int, ..v },
    }
}

/// Every state the editor can reach keeps the invariant: the buffer holds at
/// least one line and the cursor names a valid position in it. It holds of
/// the initial state, and this lemma shows that every step preserves it.
pub proof fn lemma_step_preserves_inv(v: EditorView, ev: Event)
    requires
        view_inv(v),
    ensures
        view_inv(step(v, ev)),
{
    if let Event::Motion { op, mult, motion } = ev {
        let moved = match motion {
            Some(m) => {
                let p = motion_iter(v.lines, v.cr, v.cc, m, mult as nat);
                EditorView { cr: p.0, cc: p.1, ..v }
            },
            None => v,
        };
        if let Some(m) = motion {
            lemma_motion_iter_valid(v.lines, v.cr, v.cc, m, mult as nat);
        }
        if let Some(o) = op {
            lemma_operate_inv(moved, o, (v.cr, v.cc), (moved.cr, moved.cc));
        }
    }
}

/// Switching to Normal mode while already in Normal mode changes nothing.
pub proof fn lemma_change_mode_normal_idempotent(v: EditorView)
    requires
        v.mode == Mode::Normal,
    ensures
        step(v, Event::ChangeMode(Mode::Normal)) == v,
{
    assert(step(v, Event::ChangeMode(Mode::Normal)) =~~= v);
}

/// A line split followed immediately by a backspace restores the exact line
/// content and cursor position from before the split.
pub proof fn lemma_enter_backspace_roundtrip(v: EditorView)
    requires
        view_inv(v),
    ensures
        step(step(v, Event::Enter), Event::BackSpace) == v,
{
    let line = v.lines[v.cr];
    let left = line.subrange(0, v.cc);
    let right = line.subrange(v.cc, line.len() as int);
    let v1 = enter_step(v);
    assert(v1.lines[v1.cr] == right);
    assert(v1.lines[v1.cr - 1] == left);
    let v2 = backspace_step(v1);
    assert(v2.lines =~= v.lines.update(v.cr, left + right));
    assert(left + right =~= line);
    assert(v2.lines =~= v.lines);
    assert(v2 =~~= v);
}

/// A fresh copy of the characters of `src` in the half-open range
/// `[from, to)`.
fn copy_range(src: &Vec<char>, from: usize, to: usize) -> (r: Vec<char>)
    requires
        from <= to <= src@.len(),
    ensures
        r@ == src@.subrange(from as int, to as int),
{
    let mut r: Vec<char> = Vec::new();
    let mut i = from;
    while i < to
        invariant
            from <= i <= to <= src@.len(),
            r@ == src@.subrange(from as int, i as int),
        decreases to - i,
    {
        let c = src[i];
        r.push(c);
        proof {
            assert(r@ =~= src@.subrange(from as int, i + 1));
        }
        i = i + 1;
    }
    r
}

impl Editor {
    pub fn new() -> (e: Editor)
        ensures
            e@ == init_view(),
            view_inv(e@),
    {
        let e = Editor {
            width: 0,
            height: 0,
            cc: 0,
            cr: 0,
            mode: Mode::Normal,
            buffer: Buffer::new(),
            paste_buffer: Buffer::new(),
        };
        proof {
            assert(e@ =~~= init_view());
        }
        e
    }

    /// Apply a `Write` action: literal insertion at the cursor.
    pub fn handle_write(&mut self, c: char)
        requires
            view_inv(old(self)@),
        ensures
            final(self)@ == write_step(old(self)@, c),
            view_inv(final(self)@),
    {
        let ghost v0 = self@;
        let mut row = self.buffer.lines.remove(self.cr);
        if c == '\t' {
            let i = self.cc;
            row.insert(i, ' ');
            row.insert(i, ' ');
            row.insert(i, ' ');
            row.insert(i, ' ');
            let n = row.len();
            proof {
                assert(i + 4 <= n);
            }
            self.cc = i + 4;
            proof {
                assert(row@ =~= v0.lines[v0.cr].subrange(0, v0.cc) + tab_spaces() + v0.lines[v0.cr]
                    .subrange(v0.cc, v0.lines[v0.cr].len() as int));
            }
        } else if char_is_alphanumeric(c) || c == ' ' {
            row.insert(self.cc, c);
            let n = row.len();
            proof {
                assert(self.cc + 1 <= n);
            }
            self.cc = self.cc + 1;
        }
        self.buffer.lines.insert(self.cr, row);
        proof {
            assert(self@.lines =~= v0.lines.update(v0.cr, row@));
            assert(self@ =~~= write_step(v0, c));
        }
    }

    /// Apply an `Enter` action: split the current line at the cursor.
    pub fn handle_enter(&mut self)
        requires
            view_inv(old(self)@),
        ensures
            final(self)@ == enter_step(old(self)@),
            view_inv(final(self)@),
    {
        let ghost v0 = self@;
        let mut row = self.buffer.lines.remove(self.cr);
        let rest = row.split_off(self.cc);
        self.buffer.lines.insert(self.cr, row);
        let n = self.buffer.lines.len();
        proof {
            assert(self.cr < n);
        }
        self.buffer.lines.insert(self.cr + 1, rest);
        self.cr = self.cr + 1;
        self.cc = 0;
        proof {
            assert(self@.lines =~= v0.lines.update(v0.cr, row@).insert(v0.cr + 1, rest@));
            assert(self@ =~~= enter_step(v0));
        }
    }

    /// Apply a `BackSpace` action: delete to the left of the cursor, merging
    /// lines at a line start.
    pub fn handle_backspace(&mut self)
        requires
            view_inv(old(self)@),
        ensures
            final(self)@ == backspace_step(old(self)@),
            view_inv(final(self)@),
    {
        let ghost v0 = self@;
        let cur_empty = self.buffer.lines[self.cr].len() == 0;
        if (cur_empty || self.cc == 0) && self.cr > 0 {
            let mut removed = self.buffer.lines.remove(self.cr);
            let prev_idx = self.cr - 1;
            let mut prev = self.buffer.lines.remove(prev_idx);
            let join = prev.len();
            prev.append(&mut removed);
            self.buffer.lines.insert(prev_idx, prev);
            self.cr = prev_idx;
            self.cc = join;
            proof {
                assert(self@.lines =~= v0.lines.remove(v0.cr).update(
                    v0.cr - 1,
                    v0.lines[v0.cr - 1] + v0.lines[v0.cr],
                ));
                assert(self@ =~~= backspace_step(v0));
            }
        } else if self.cc > 0 {
            let mut row = self.buffer.lines.remove(self.cr);
            row.remove(self.cc - 1);
            self.cc = self.cc - 1;
            self.buffer.lines.insert(self.cr, row);
            proof {
                assert(self@.lines =~= v0.lines.update(v0.cr, v0.lines[v0.cr].remove(v0.cc - 1)));
                assert(self@ =~~= backspace_step(v0));
            }
        } else {
            proof {
                assert(self@ =~~= backspace_step(v0));
            }
        }
    }

    /// Apply an operator over the half-open range between two cursor
    /// positions, recorded before and after a motion. The swept text always
    /// overwrites the secondary buffer; `Delete` also removes it from the
    /// buffer and puts the cursor at the start of the range.
    pub fn apply_operation(&mut self, op: Operator, start: (usize, usize), end: (usize, usize))
        requires
            view_inv(old(self)@),
            valid_pos(old(self)@.lines, (start.0 as int, start.1 as int)),
            valid_pos(old(self)@.lines, (end.0 as int, end.1 as int)),
        ensures
            final(self)@ == operate(
                old(self)@,
                op,
                (start.0 as int, start.1 as int),
                (end.0 as int, end.1 as int),
            ),
            view_inv(final(self)@),
    {
        let ghost v0 = self@;
        let swap = end.0 < start.0 || (end.0 == start.0 && end.1 < start.1);
        let (lo, hi) = if swap {
            (end, start)
        } else {
            (start, end)
        };
        let ghost glo = (lo.0 as int, lo.1 as int);
        let ghost ghi = (hi.0 as int, hi.1 as int);

        let mut extracted: Vec<Vec<char>> = Vec::new();
        if lo.0 == hi.0 {
            let frag = copy_range(&self.buffer.lines[lo.0], lo.1, hi.1);
            extracted.push(frag);
        } else {
            let first_len = self.buffer.lines[lo.0].len();
            let first = copy_range(&self.buffer.lines[lo.0], lo.1, first_len);
            extracted.push(first);
            let mut r = lo.0 + 1;
            while r < hi.0
                invariant
                    lo.0 + 1 <= r <= hi.0,
                    ghi.0 < self@.lines.len(),
                    self@ == v0,
                    glo == (lo.0 as int, lo.1 as int),
                    ghi == (hi.0 as int, hi.1 as int),
                    valid_pos(v0.lines, glo),
                    valid_pos(v0.lines, ghi),
                    extracted@.len() == r - lo.0,
                    extracted@[0]@ == v0.lines[glo.0].subrange(
                        glo.1,
                        v0.lines[glo.0].len() as int,
                    ),
                    forall|t: int|
                        1 <= t < extracted@.len() ==> #[trigger] extracted@[t]@ == v0.lines[glo.0
                            + t],
                decreases hi.0 - r,
            {
                let len_r = self.buffer.lines[r].len();
                let mid = copy_range(&self.buffer.lines[r], 0, len_r);
                extracted.push(mid);
                proof {
                    assert(mid@ =~= v0.lines[r as int]);
                }
                r = r + 1;
            }
            let last = copy_range(&self.buffer.lines[hi.0], 0, hi.1);
            extracted.push(last);
        }
        self.paste_buffer.lines = extracted;
        proof {
            assert(self@.paste =~= extract_lines(v0.lines, glo, ghi));
        }

        if matches!(op, Operator::Delete) {
            if lo.0 == hi.0 {
                let mut row = self.buffer.lines.remove(lo.0);
                let ghost row0 = row@;
                let count = hi.1 - lo.1;
                let mut j: usize = 0;
                while j < count
                    invariant
                        j <= count,
                        count == ghi.1 - glo.1,
                        glo.1 + count <= row0.len(),
                        0 <= glo.1,
                        glo == (lo.0 as int, lo.1 as int),
                        row@ == row0.subrange(0, glo.1) + row0.subrange(
                            glo.1 + j,
                            row0.len() as int,
                        ),
                    decreases count - j,
                {
                    row.remove(lo.1);
                    proof {
                        assert(row@ =~= row0.subrange(0, glo.1) + row0.subrange(
                            glo.1 + j + 1,
                            row0.len() as int,
                        ));
                    }
                    j = j + 1;
                }
                self.buffer.lines.insert(lo.0, row);
                self.cr = lo.0;
                self.cc = lo.1;
                proof {
                    assert(self@.lines =~= remove_range(v0.lines, glo, ghi));
                    assert(self@ =~~= operate(v0, op, (start.0 as int, start.1 as int), (
                        end.0 as int,
                        end.1 as int,
                    )));
                }
            } else {
                let hi_len = self.buffer.lines[hi.0].len();
                let mut tail = copy_range(&self.buffer.lines[hi.0], hi.1, hi_len);
                let mut first = self.buffer.lines.remove(lo.0);
                first.truncate(lo.1);
                first.append(&mut tail);
                self.buffer.lines.insert(lo.0, first);
                let ghost base = self.buffer.lines@;
                let n0 = self.buffer.lines.len();
                let count = hi.0 - lo.0;
                let mut k: usize = 0;
                while k < count
                    invariant
                        k <= count,
                        count == ghi.0 - glo.0,
                        glo == (lo.0 as int, lo.1 as int),
                        glo.0 + 1 + count <= base.len(),
                        0 <= glo.0,
                        base.len() == n0,
                        self.buffer.lines@ == base.subrange(0, glo.0 + 1) + base.subrange(
                            glo.0 + 1 + k,
                            base.len() as int,
                        ),
                        self.paste_buffer@ == extract_lines(v0.lines, glo, ghi),
                        self.mode == v0.mode,
                        self.width as int == v0.width,
                        self.height as int == v0.height,
                    decreases count - k,
                {
                    self.buffer.lines.remove(lo.0 + 1);
                    proof {
                        assert(self.buffer.lines@ =~= base.subrange(0, glo.0 + 1) + base.subrange(
                            glo.0 + 1 + k + 1,
                            base.len() as int,
                        ));
                    }
                    k = k + 1;
                }
                self.cr = lo.0;
                self.cc = lo.1;
                proof {
                    assert(self@.lines =~= remove_range(v0.lines, glo, ghi));
                    assert(self@ =~~= operate(v0, op, (start.0 as int, start.1 as int), (
                        end.0 as int,
                        end.1 as int,
                    )));
                }
            }
        } else {
            proof {
                assert(self@ =~~= operate(v0, op, (start.0 as int, start.1 as int), (
                    end.0 as int,
                    end.1 as int,
                )));
            }
        }
        proof {
            lemma_operate_inv(v0, op, (start.0 as int, start.1 as int), (end.0 as int, end.1 as int));
        }
    }

    /// Apply a `Motion` action: move the cursor `mult` times by the motion,
    /// clamping between repetitions, then apply the operator, if any, over
    /// the swept range.
    pub fn handle_motion(&mut self, op: Option<Operator>, mult: u8, motion: Option<Motion>)
        requires
            view_inv(old(self)@),
        ensures
            final(self)@ == motion_step(old(self)@, op, mult, motion),
            view_inv(final(self)@),
    {
        let ghost v0 = self@;
        let start = (self.cr, self.cc);
        if let Some(m) = motion {
            let mut i: u8 = 0;
            while i < mult
                invariant
                    i <= mult,
                    view_inv(v0),
                    self.buffer@ == v0.lines,
                    self.paste_buffer@ == v0.paste,
                    self.mode == v0.mode,
                    self.width as int == v0.width,
                    self.height as int == v0.height,
                    (self.cr as int, self.cc as int) == motion_iter(
                        v0.lines,
                        v0.cr,
                        v0.cc,
                        m,
                        i as nat,
                    ),
                    view_inv(self@),
                decreases mult - i,
            {
                match m {
                    Motion::Up => {
                        if self.cr > 0 {
                            self.cr = self.cr - 1;
                        }
                        let len = self.buffer.lines[self.cr].len();
                        if self.cc > len {
                            self.cc = len;
                        }
                    },
                    Motion::Down => {
                        let n = self.buffer.lines.len();
                        if self.cr < n - 1 {
                            self.cr = self.cr + 1;
                        }
                        let len = self.buffer.lines[self.cr].len();
                        if self.cc > len {
                            self.cc = len;
                        }
                    },
                    Motion::Left => {
                        if self.cc > 0 {
                            self.cc = self.cc - 1;
                        }
                    },
                    Motion::Right => {
                        let len = self.buffer.lines[self.cr].len();
                        if self.cc < len {
                            self.cc = self.cc + 1;
                        }
                    },
                    Motion::Start => {
                        self.cc = 0;
                    },
                    Motion::End => {
                        self.cc = self.buffer.lines[self.cr].len();
                    },
                    Motion::Word => {
                        let ghost c0 = self.cc as int;
                        let row_len = self.buffer.lines[self.cr].len();
                        let mut j = self.cc;
                        while j < row_len && self.buffer.lines[self.cr][j] != ' '
                            invariant
                                self.cc <= j <= row_len,
                                self.cr < self.buffer.lines@.len(),
                                row_len == self.buffer.lines@[self.cr as int]@.len(),
                                c0 == self.cc as int,
                                next_space(self.buffer@[self.cr as int], c0) == next_space(
                                    self.buffer@[self.cr as int],
                                    j as int,
                                ),
                            decreases row_len - j,
                        {
                            j = j + 1;
                        }
                        self.cc = j;
                    },
                }
                proof {
                    lemma_motion_iter_valid(v0.lines, v0.cr, v0.cc, m, i as nat);
                }
                i = i + 1;
            }
            proof {
                lemma_motion_iter_valid(v0.lines, v0.cr, v0.cc, m, mult as nat);
            }
        }
        if let Some(o) = op {
            self.apply_operation(o, start, (self.cr, self.cc));
        }
        proof {
            assert(self@ =~~= motion_step(v0, op, mult, motion));
        }
    }

    /// Apply one resolved event to the editor state. The result says whether
    /// the event was `Quit`, which ends the dispatch loop; every other event
    /// mutates the state as the `step` machine describes and cannot fail.
    pub fn handle_action(&mut self, ev: Event) -> (done: bool)
        requires
            view_inv(old(self)@),
        ensures
            final(self)@ == step(old(self)@, ev),
            view_inv(final(self)@),
            done == (ev == Event::Quit),
    {
        let ghost v0 = self@;
        match ev {
            Event::Quit => true,
            Event::ChangeMode(m) => {
                self.mode = m;
                proof {
                    assert(self@ =~~= step(v0, ev));
                }
                false
            },
            Event::BackSpace => {
                self.handle_backspace();
                false
            },
            Event::Enter => {
                self.handle_enter();
                false
            },
            Event::Write(c) => {
                self.handle_write(c);
                false
            },
            Event::WindowResize(w, h) => {
                self.width = w;
                self.height = h;
                proof {
                    assert(self@ =~~= step(v0, ev));
                }
                false
            },
            Event::Motion { op, mult, motion } => {
                self.handle_motion(op, mult, motion);
                false
            },
        }
    }

    /// The current interpretation mode, for the key-reading collaborator.
    pub fn mode(&self) -> (m: Mode)
        ensures
            m == self@.mode,
    {
        self.mode
    }

    /// The cursor position as `(row, column)`.
    pub fn cursor(&self) -> (p: (usize, usize))
        ensures
            p.0 as int == self@.cr,
            p.1 as int == self@.cc,
    {
        (self.cr, self.cc)
    }

    /// How many lines the buffer holds; always at least one.
    pub fn line_count(&self) -> (n: usize)
        ensures
            n as int == self@.lines.len(),
    {
        self.buffer.lines.len()
    }

    /// One line of the buffer, for rendering and inspection.
    pub fn line(&self, r: usize) -> (l: &Vec<char>)
        requires
            (r as int) < self@.lines.len(),
        ensures
            l@ == self@.lines[r as int],
    {
        &self.buffer.lines[r]
    }

    /// How many lines the secondary (yank/delete) buffer holds.
    pub fn paste_line_count(&self) -> (n: usize)
        ensures
            n as int == self@.paste.len(),
    {
        self.paste_buffer.lines.len()
    }

    /// One line of the secondary buffer.
    pub fn paste_line(&self, r: usize) -> (l: &Vec<char>)
        requires
            (r as int) < self@.paste.len(),
        ensures
            l@ == self@.paste[r as int],
    {
        &self.paste_buffer.lines[r]
    }

    /// The recorded viewport width; advisory to the rendering collaborator.
    pub fn width(&self) -> (w: u16)
        ensures
            w as int == self@.width,
    {
        self.width
    }

    /// The recorded viewport height; advisory to the rendering collaborator.
    pub fn height(&self) -> (h: u16)
        ensures
            h as int == self@.height,
    {
        self.height
    }
}

} // verus!

