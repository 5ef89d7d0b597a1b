//! The editing session's state machine. Each input byte is fed to the editor,
//! which updates the line, the history browsing and the completion state, and
//! answers with what the caller has to do next: redraw, ring the bell, ask the
//! completion producer, or finish.

use vstd::prelude::*;
use crate::MAX_LINE;
use crate::buffer::{clipped, swapped, word_start, LineBuffer};
use crate::config::Config;
use crate::history::History;
use crate::keys::{
    decode_sequence, escape_action, escape_table, is_continuation, key_action, key_table, utf8_len,
    utf8_sequence_len, valid_sequence, code_point, EditAction, ENTER, TAB,
};
use crate::render::{multi_line, refresh_multiline, refresh_singleline, single_line, hint_view, RowLayout};
use crate::text::chars_of;

verus! {

/// Completion in progress: the line as it was when completion began, and
/// which candidate is shown.
pub struct CompletionState {
    pub original_line: String,
    pub current_index: usize,
}

/// Bytes of a key that are still to come.
pub enum Pending {
    /// No key is half-read.
    Idle,
    /// The escape byte came.
    Escape,
    /// The escape byte and this byte came.
    EscapeFirst(u8),
    /// `ESC [ 3` came; `~` completes the delete key.
    DeleteKey,
    /// These bytes of a UTF-8 sequence of `needed` bytes came.
    Utf8 { bytes: Vec<u8>, needed: usize },
}

/// What the caller does after a byte has been fed.
#[derive(Debug, PartialEq, Eq)]
pub enum Effect {
    /// Enter: the session yields this line.
    Done(String),
    /// End of input on an empty line.
    EndOfInput,
    /// The user interrupted the session.
    Interrupted,
    /// Ask the completion producer for the candidates of this line and hand
    /// them to `handle_completion`.
    Complete(String),
    /// More input is needed; redraw and ring the bell as asked.
    Continue { refresh: bool, beep: bool },
    /// Clear the screen, then redraw.
    ClearScreen,
}

/// The state of one editing session.
pub struct Editor {
    pub buffer: LineBuffer,
    pub prompt: Vec<char>,
    /// 0 while not browsing the history, else how far back from the newest entry.
    pub history_index: usize,
    /// The line being edited when browsing last left it.
    pub saved_line: Option<String>,
    pub completion_state: Option<CompletionState>,
    /// Rows drawn by the last multi-line redraw.
    pub old_rows: usize,
    /// Row of the cursor after the last multi-line redraw.
    pub cursor_row_offset: usize,
    pub pending: Pending,
}

/// An optional string as an optional character sequence.
pub open spec fn opt_text(o: Option<String>) -> Option<Seq<char>> {
    match o {
        Some(s) => Some(s@),
        None => None,
    }
}

/// The actions that only edit the line.
pub open spec fn is_buffer_action(a: EditAction) -> bool {
    match a {
        EditAction::Backspace | EditAction::Delete | EditAction::Clear | EditAction::DeleteToEnd
        | EditAction::DeleteWord | EditAction::Home | EditAction::End | EditAction::Left
        | EditAction::Right | EditAction::Transpose | EditAction::Insert(_) => true,
        _ => false,
    }
}

/// A line-editing action on `text` with the cursor at `pos`: the new text,
/// the new cursor, and whether the line is redrawn. Deleting, transposing and
/// inserting redraw only when they change something; the others always do.
pub open spec fn edited(text: Seq<char>, pos: nat, a: EditAction) -> (Seq<char>, nat, bool) {
    let len = text.len();
    match a {
        EditAction::Backspace => if pos > 0 {
            (text.remove(pos - 1), (pos - 1) as nat, true)
        } else {
            (text, pos, true)
        },
        EditAction::Delete => if pos < len {
            (text.remove(pos as int), pos, true)
        } else {
            (text, pos, false)
        },
        EditAction::Clear => (Seq::empty(), 0, true),
        EditAction::DeleteToEnd => (text.subrange(0, pos as int), pos, true),
        EditAction::DeleteWord => {
            let ws = word_start(text, pos as int);
            (text.subrange(0, ws) + text.subrange(pos as int, len as int), ws as nat, true)
        },
        EditAction::Home => (text, 0, true),
        EditAction::End => (text, len, true),
        EditAction::Left => (text, if pos > 0 { (pos - 1) as nat } else { pos }, true),
        EditAction::Right => (text, if pos < len { pos + 1 } else { pos }, true),
        EditAction::Transpose => if pos > 0 && len > 1 {
            if pos == len {
                (swapped(text, pos - 2, pos - 1), pos, true)
            } else {
                (swapped(text, pos - 1, pos as int), pos + 1, true)
            }
        } else {
            (text, pos, false)
        },
        EditAction::Insert(c) => if len < MAX_LINE - 1 {
            (text.insert(pos as int, c), pos + 1, true)
        } else {
            (text, pos, false)
        },
        _ => (text, pos, false),
    }
}

/// History browsing: `idx` after one step older or newer in a history of `len` entries.
pub open spec fn nav_index(idx: nat, len: nat, older: bool) -> nat {
    if older {
        if idx < len { idx + 1 } else { idx }
    } else {
        if idx > 0 { (idx - 1) as nat } else { idx }
    }
}

/// The state that history browsing reads and writes: the index, the saved
/// line, and the line shown.
pub type NavState = (nat, Option<Seq<char>>, Seq<char>);

/// Whether a browsing step from `idx` moves: not past the oldest entry, not
/// before the live line, and not in an empty history.
pub open spec fn nav_moves(lines: Seq<Seq<char>>, idx: nat, older: bool) -> bool {
    lines.len() > 0 && nav_index(idx, lines.len(), older) != idx
}

/// One step of history browsing over `lines` (oldest first). A step that does
/// not move changes nothing. Leaving the live line (index 0) saves it; index 0
/// shows the saved line again, any other index the entry that many steps back
/// from the newest. An index past the oldest entry (the history shrank
/// meanwhile) leaves the line as it is.
pub open spec fn nav_step(lines: Seq<Seq<char>>, st: NavState, older: bool) -> NavState {
    let len = lines.len();
    if !nav_moves(lines, st.0, older) {
        st
    } else {
        let idx = nav_index(st.0, len, older);
        let saved = if st.0 == 0 { Some(st.2) } else { st.1 };
        let text = if idx == 0 {
            match saved {
                Some(s) => clipped(s),
                None => st.2,
            }
        } else if idx <= len {
            clipped(lines[len - idx])
        } else {
            st.2
        };
        (idx, saved, text)
    }
}

/// `k` steps of history browsing in one direction.
pub open spec fn nav_repeat(lines: Seq<Seq<char>>, st: NavState, older: bool, k: nat) -> NavState
    decreases k,
{
    if k == 0 {
        st
    } else {
        nav_step(lines, nav_repeat(lines, st, older, (k - 1) as nat), older)
    }
}

proof fn lemma_older_steps(lines: Seq<Seq<char>>, text: Seq<char>, j: nat)
    requires
        j <= lines.len(),
        lines.len() > 0,
    ensures
        nav_repeat(lines, (0, None, text), true, j).0 == j,
        j > 0 ==> nav_repeat(lines, (0, None, text), true, j).1 == Some(text),
        j == 0 ==> nav_repeat(lines, (0, None, text), true, j) == (0nat, None::<Seq<char>>, text),
    decreases j,
{
    if j > 0 {
        lemma_older_steps(lines, text, (j - 1) as nat);
    }
}

proof fn lemma_newer_steps(lines: Seq<Seq<char>>, st: NavState, j: nat)
    requires
        j <= st.0 <= lines.len(),
        lines.len() > 0,
        st.1 is Some,
    ensures
        nav_repeat(lines, st, false, j).0 == st.0 - j,
        nav_repeat(lines, st, false, j).1 == st.1,
        j > 0 && j == st.0 ==> nav_repeat(lines, st, false, j).2 == clipped(st.1->0),
    decreases j,
{
    if j > 0 {
        lemma_newer_steps(lines, st, (j - 1) as nat);
    }
}

/// History browsing from a fresh line: going `k` entries back and then `k`
/// entries forward shows the line typed before browsing again, for any `k` up to the
/// number of entries.
pub proof fn lemma_history_round_trip(lines: Seq<Seq<char>>, text: Seq<char>, k: nat)
    requires
        k <= lines.len(),
        text.len() < MAX_LINE,
    ensures
        nav_repeat(lines, nav_repeat(lines, (0, None, text), true, k), false, k).2 == text,
{
    if lines.len() == 0 || k == 0 {
        assert(k == 0);
    } else {
        lemma_older_steps(lines, text, k);
        let st = nav_repeat(lines, (0, None, text), true, k);
        lemma_newer_steps(lines, st, k);
    }
}

/// Enter yields exactly the line being edited and changes nothing else; the
/// history is not touched (it is only read).
pub proof fn lemma_enter_yields_line(pre: Editor, post: Editor, e: Effect, can_complete: bool, lines: Seq<Seq<char>>)
    requires
        Editor::applied(key_table(ENTER), pre, post, e, can_complete, lines),
    ensures
        e is Done,
        e->Done_0@ == pre.buffer.text(),
        post == pre,
{
}

/// Any sequence of line edits, applied in order.
pub open spec fn edit_all(text: Seq<char>, pos: nat, ops: Seq<EditAction>) -> (Seq<char>, nat)
    decreases ops.len(),
{
    if ops.len() == 0 {
        (text, pos)
    } else {
        let prev = edit_all(text, pos, ops.drop_last());
        let ed = edited(prev.0, prev.1, ops.last());
        (ed.0, ed.1)
    }
}

proof fn lemma_edit_keeps_cursor(text: Seq<char>, pos: nat, a: EditAction)
    requires
        pos <= text.len(),
        text.len() < MAX_LINE,
    ensures
        edited(text, pos, a).1 <= edited(text, pos, a).0.len(),
        edited(text, pos, a).0.len() < MAX_LINE,
{
    if a is DeleteWord {
        crate::buffer::lemma_skip_spaces_bounds(text, pos as int);
        crate::buffer::lemma_skip_word_bounds(text, crate::buffer::skip_spaces(text, pos as int));
    }
}

/// Whatever sequence of inserts, moves and deletions is applied, the cursor
/// stays between 0 and the length of the line, and the line stays shorter
/// than `MAX_LINE`: inserts past the capacity are refused.
pub proof fn lemma_edits_keep_cursor(text: Seq<char>, pos: nat, ops: Seq<EditAction>)
    requires
        pos <= text.len(),
        text.len() < MAX_LINE,
    ensures
        edit_all(text, pos, ops).1 <= edit_all(text, pos, ops).0.len(),
        edit_all(text, pos, ops).0.len() < MAX_LINE,
    decreases ops.len(),
{
    if ops.len() > 0 {
        lemma_edits_keep_cursor(text, pos, ops.drop_last());
        let prev = edit_all(text, pos, ops.drop_last());
        lemma_edit_keeps_cursor(prev.0, prev.1, ops.last());
    }
}

/// The completion state as plain values: the line completion began from and the index shown.
pub open spec fn comp_view(o: Option<CompletionState>) -> Option<(Seq<char>, nat)> {
    match o {
        Some(st) => Some((st.original_line@, st.current_index as nat)),
        None => None,
    }
}

/// Continue without redrawing or ringing the bell.
pub open spec fn quiet() -> Effect {
    Effect::Continue { refresh: false, beep: false }
}

impl Editor {
    pub open spec fn wf(&self) -> bool {
        &&& self.buffer.wf()
        &&& self.prompt@.len() + MAX_LINE <= usize::MAX
        &&& (self.history_index > 0 ==> self.saved_line is Some)
        &&& match self.pending {
            Pending::Utf8 { bytes, needed } => {
                &&& 2 <= needed <= 4
                &&& 1 <= bytes@.len() < needed
                &&& utf8_len(bytes@[0]) == needed
                &&& forall|i: int| 1 <= i < bytes@.len() ==> is_continuation(#[trigger] bytes@[i])
            },
            _ => true,
        }
    }

    /// The line a completion request is made for: the line as it was when
    /// completion began, or the current line.
    pub open spec fn completion_input(&self) -> Seq<char> {
        match self.completion_state {
            Some(st) => st.original_line@,
            None => self.buffer.text(),
        }
    }

    /// `post` is `pre` with history browsing moved one step.
    pub open spec fn browsed(pre: Editor, post: Editor, lines: Seq<Seq<char>>, older: bool) -> bool {
        let st = nav_step(lines, (pre.history_index as nat, opt_text(pre.saved_line), pre.buffer.text()), older);
        &&& post.history_index == st.0
        &&& opt_text(post.saved_line) == st.1
        &&& post.buffer.text() == st.2
        &&& post.buffer.pos == if !nav_moves(lines, pre.history_index as nat, older) || st.0 > lines.len() {
            pre.buffer.pos as nat
        } else {
            st.2.len()
        }
        &&& post.prompt == pre.prompt
        &&& post.completion_state == pre.completion_state
        &&& post.old_rows == pre.old_rows
        &&& post.cursor_row_offset == pre.cursor_row_offset
        &&& post.pending == pre.pending
    }

    /// What applying action `a` to `pre` does: `post` is the new state and `e`
    /// what the caller is asked to do. `pre` carries the completion state that
    /// the key leaves in place.
    pub open spec fn applied(
        a: EditAction,
        pre: Editor,
        post: Editor,
        e: Effect,
        can_complete: bool,
        lines: Seq<Seq<char>>,
    ) -> bool {
        let text = pre.buffer.text();
        let pos = pre.buffer.pos as nat;
        if is_buffer_action(a) || (a == EditAction::DeleteOrEnd && text.len() > 0) {
            let b = if a == EditAction::DeleteOrEnd { EditAction::Delete } else { a };
            let ed = edited(text, pos, b);
            &&& post.buffer.text() == ed.0
            &&& post.buffer.pos == ed.1
            &&& post == (Editor { buffer: post.buffer, ..pre })
            &&& e == (Effect::Continue { refresh: ed.2, beep: b is Insert && !ed.2 })
        } else {
            match a {
                EditAction::Accept => post == pre && e is Done && e->Done_0@ == text,
                EditAction::Interrupt => post == pre && e is Interrupted,
                EditAction::DeleteOrEnd => post == pre && e is EndOfInput,
                EditAction::Complete => post == pre && if can_complete {
                    e is Complete && e->Complete_0@ == pre.completion_input()
                } else {
                    e == quiet()
                },
                EditAction::Older | EditAction::Newer => {
                    &&& Self::browsed(pre, post, lines, a == EditAction::Older)
                    &&& e == (Effect::Continue {
                        refresh: nav_moves(lines, pre.history_index as nat, a == EditAction::Older),
                        beep: false,
                    })
                },
                EditAction::ClearScreen => post == (Editor { old_rows: 0, cursor_row_offset: 0, ..pre })
                    && e is ClearScreen,
                EditAction::Escape => post == (Editor { pending: Pending::Escape, ..pre }) && e == quiet(),
                EditAction::Utf8Lead(b) => if utf8_len(b) == 1 {
                    post == pre && e == (Effect::Continue { refresh: false, beep: true })
                } else {
                    &&& post.pending is Utf8
                    &&& post.pending->bytes@ == seq![b]
                    &&& post.pending->needed == utf8_len(b)
                    &&& post == (Editor { pending: post.pending, ..pre })
                    &&& e == quiet()
                },
                _ => post == pre && e == quiet(),
            }
        }
    }

    /// What a byte that continues an escape sequence does. After the escape
    /// byte it is kept; after the second byte the pair is looked up (`ESC [ 3`
    /// waits for `~`); unknown pairs do nothing. The key is over either way.
    pub open spec fn escape_stepped(
        c: u8,
        pre: Editor,
        post: Editor,
        e: Effect,
        can_complete: bool,
        lines: Seq<Seq<char>>,
    ) -> bool {
        let idle = Editor { pending: Pending::Idle, ..pre };
        match pre.pending {
            Pending::Escape => post == (Editor { pending: Pending::EscapeFirst(c), ..pre }) && e == quiet(),
            Pending::EscapeFirst(b1) => if b1 == 0x5b && c == 0x33 {
                post == (Editor { pending: Pending::DeleteKey, ..pre }) && e == quiet()
            } else {
                Self::applied(escape_table(b1, c), idle, post, e, can_complete, lines)
            },
            Pending::DeleteKey => if c == 0x7e {
                Self::applied(EditAction::Delete, idle, post, e, can_complete, lines)
            } else {
                post == idle && e == quiet()
            },
            _ => false,
        }
    }

    /// What a byte that continues a UTF-8 sequence does. A byte that is no
    /// continuation byte ends the sequence with the bell; the last byte inserts
    /// the character, or rings the bell if the sequence is not valid UTF-8.
    pub open spec fn utf8_stepped(
        c: u8,
        pre: Editor,
        post: Editor,
        e: Effect,
        can_complete: bool,
        lines: Seq<Seq<char>>,
    ) -> bool {
        let bytes = pre.pending->bytes@;
        let needed = pre.pending->needed;
        let idle = Editor { pending: Pending::Idle, ..pre };
        if !is_continuation(c) {
            post == idle && e == (Effect::Continue { refresh: false, beep: true })
        } else if bytes.len() + 1 < needed {
            &&& post.pending is Utf8
            &&& post.pending->bytes@ == bytes.push(c)
            &&& post.pending->needed == needed
            &&& post == (Editor { pending: post.pending, ..pre })
            &&& e == quiet()
        } else if valid_sequence(bytes.push(c)) {
            exists|ch: char| ch as u32 == code_point(bytes.push(c)) && #[trigger] Self::applied(
                EditAction::Insert(ch), idle, post, e, can_complete, lines)
        } else {
            post == idle && e == (Effect::Continue { refresh: false, beep: true })
        }
    }

    /// A session for `prompt`: an empty line, not browsing, no completion,
    /// nothing drawn yet.
    pub fn new(prompt: &str) -> (r: Editor)
        requires
            prompt@.len() + MAX_LINE <= usize::MAX,
        ensures
            r.wf(),
            r.prompt@ == prompt@,
            r.buffer.text() == Seq::<char>::empty(),
            r.buffer.pos == 0,
            r.history_index == 0,
            r.saved_line is None,
            r.completion_state is None,
            r.old_rows == 0,
            r.cursor_row_offset == 0,
            r.pending is Idle,
    {
        Editor {
            buffer: LineBuffer::new(),
            prompt: chars_of(prompt),
            history_index: 0,
            saved_line: None,
            completion_state: None,
            old_rows: 0,
            cursor_row_offset: 0,
            pending: Pending::Idle,
        }
    }

    /// The line being edited.
    pub fn line(&self) -> (r: String)
        ensures
            r@ == self.buffer.text(),
    {
        self.buffer.as_string()
    }

    /// Whether a key is half-read and its remaining bytes are awaited.
    pub fn is_pending(&self) -> (r: bool)
        ensures
            r == !(self.pending is Idle),
    {
        !matches!(self.pending, Pending::Idle)
    }

    /// Whether an escape sequence is half-read: its remaining bytes are read
    /// only from input already available.
    pub fn in_escape(&self) -> (r: bool)
        ensures
            r == (self.pending is Escape || self.pending is EscapeFirst || self.pending is DeleteKey),
    {
        matches!(self.pending, Pending::Escape | Pending::EscapeFirst(_) | Pending::DeleteKey)
    }

    /// Redraws in single-line mode.
    pub fn refresh_singleline(&self, cols: usize, mask: bool, hint: &Option<(String, i32, bool)>) -> (r: String)
        requires
            self.wf(),
        ensures
            r@ == single_line(self.prompt@, self.buffer.text(), self.buffer.pos as nat, cols as nat, mask,
                hint_view(*hint), self.completion_state is Some),
    {
        refresh_singleline(self.prompt.as_slice(), &self.buffer, cols, mask, hint, self.completion_state.is_some())
    }

    /// Redraws in multi-line mode and records the rows drawn and the cursor's
    /// row for the next redraw.
    pub fn refresh_multiline(&mut self, cols: usize, mask: bool, hint: &Option<(String, i32, bool)>) -> (r: String)
        requires
            old(self).wf(),
            cols > 0,
        ensures
            final(self).wf(),
            exists|l: RowLayout| {
                &&& #[trigger] l.describes(old(self).prompt@.len(), old(self).buffer.text().len(),
                    old(self).buffer.pos as nat, cols as nat)
                &&& r@ == multi_line(old(self).prompt@, old(self).buffer.text(), mask, hint_view(*hint),
                    old(self).completion_state is Some, cols as nat, old(self).old_rows as nat,
                    old(self).cursor_row_offset as nat, l)
                &&& final(self).old_rows == l.total_rows
                &&& final(self).cursor_row_offset == l.cursor_row
            },
            *final(self) == (Editor {
                old_rows: final(self).old_rows,
                cursor_row_offset: final(self).cursor_row_offset,
                ..*old(self)
            }),
    {
        let (out, l) = refresh_multiline(self.prompt.as_slice(), &self.buffer, cols, mask, hint,
            self.completion_state.is_some(), self.old_rows, self.cursor_row_offset);
        self.old_rows = l.total_rows;
        self.cursor_row_offset = l.cursor_row;
        out
    }

    /// Redraws the line in the mode the settings ask for, on `cols` columns,
    /// with `hint` after the line where it fits.
    pub fn refresh_line<C, H>(&mut self, cfg: &Config<C, H>, cols: usize, hint: &Option<(String, i32, bool)>) -> (r: String)
        requires
            old(self).wf(),
            cfg.multi_line ==> cols > 0,
        ensures
            final(self).wf(),
            !cfg.multi_line ==> *final(self) == *old(self) && r@ == single_line(old(self).prompt@,
                old(self).buffer.text(), old(self).buffer.pos as nat, cols as nat, cfg.mask_mode,
                hint_view(*hint), old(self).completion_state is Some),
            cfg.multi_line ==> exists|l: RowLayout| {
                &&& #[trigger] l.describes(old(self).prompt@.len(), old(self).buffer.text().len(),
                    old(self).buffer.pos as nat, cols as nat)
                &&& r@ == multi_line(old(self).prompt@, old(self).buffer.text(), cfg.mask_mode, hint_view(*hint),
                    old(self).completion_state is Some, cols as nat, old(self).old_rows as nat,
                    old(self).cursor_row_offset as nat, l)
                &&& final(self).old_rows == l.total_rows
                &&& final(self).cursor_row_offset == l.cursor_row
            },
            *final(self) == (Editor {
                old_rows: final(self).old_rows,
                cursor_row_offset: final(self).cursor_row_offset,
                ..*old(self)
            }),
    {
        if cfg.multi_line {
            self.refresh_multiline(cols, cfg.mask_mode, hint)
        } else {
            self.refresh_singleline(cols, cfg.mask_mode, hint)
        }
    }

    /// Ends completion, leaving the shown candidate as the line.
    pub fn accept_completion(&mut self)
        ensures
            *final(self) == (Editor { completion_state: None, ..*old(self) }),
    {
        self.completion_state = None;
    }

    /// Shows the next completion among `candidates`, the producer's answer for
    /// the line that the last `Effect::Complete` named. The first time, the
    /// line is saved and the first candidate shown; then each call shows the
    /// next one, wrapping around. No candidates: the bell, and completion ends.
    pub fn handle_completion(&mut self, candidates: &Vec<String>) -> (r: Effect)
        requires
            old(self).wf(),
        ensures
            final(self).wf(),
            candidates@.len() == 0 ==> *final(self) == (Editor { completion_state: None, ..*old(self) })
                && r == (Effect::Continue { refresh: false, beep: true }),
            candidates@.len() > 0 ==> {
                let idx: nat = match old(self).completion_state {
                    Some(st) => ((st.current_index + 1) % (candidates@.len() as int)) as nat,
                    None => 0,
                };
                &&& comp_view(final(self).completion_state) == Some((old(self).completion_input(), idx))
                &&& final(self).buffer.text() == clipped(candidates@[idx as int]@)
                &&& final(self).buffer.pos == final(self).buffer.text().len()
                &&& *final(self) == (Editor {
                    buffer: final(self).buffer,
                    completion_state: final(self).completion_state,
                    ..*old(self)
                })
                &&& r == (Effect::Continue { refresh: true, beep: false })
            },
    {
        let n = candidates.len();
        if n == 0 {
            self.completion_state = None;
            return Effect::Continue { refresh: false, beep: true };
        }
        let original = match &self.completion_state {
            Some(st) => st.original_line.clone(),
            None => self.buffer.as_string(),
        };
        let idx: usize = match &self.completion_state {
            Some(st) => {
                let i = (st.current_index % n + 1) % n;
                proof {
                    let c = st.current_index as int;
                    let m = n as int;
                    assert((c % m + 1) % m == (c + 1) % m) by (nonlinear_arith)
                        requires m > 0, c >= 0;
                }
                i
            },
            None => 0,
        };
        self.buffer.set(candidates[idx].as_str());
        self.completion_state = Some(CompletionState { original_line: original, current_index: idx });
        Effect::Continue { refresh: true, beep: false }
    }

    /// One step of history browsing, older or newer; see `nav_step`. Reports
    /// whether it moved, and so whether the line is to be redrawn.
    pub fn handle_history(&mut self, older: bool, history: &History) -> (r: bool)
        requires
            old(self).wf(),
        ensures
            final(self).wf(),
            Self::browsed(*old(self), *final(self), history.lines(), older),
            r == nav_moves(history.lines(), old(self).history_index as nat, older),
    {
        let len = history.len();
        if len == 0 {
            return false;
        }
        let idx = self.history_index;
        let next: usize = if older {
            if idx < len { idx + 1 } else { idx }
        } else {
            if idx > 0 { idx - 1 } else { idx }
        };
        if next == idx {
            return false;
        }
        if idx == 0 {
            self.saved_line = Some(self.buffer.as_string());
        }
        self.history_index = next;
        if self.history_index == 0 {
            match &self.saved_line {
                Some(saved) => {
                    let s = saved.clone();
                    self.buffer.set(s.as_str());
                }
                None => {}
            }
        } else {
            match history.get(self.history_index) {
                Some(entry) => self.buffer.set(entry),
                None => {}
            }
        }
        true
    }

    /// Applies an edit action; see `applied`.
    pub fn apply<C, H>(&mut self, a: EditAction, cfg: &Config<C, H>) -> (r: Effect)
        requires
            old(self).wf(),
        ensures
            final(self).wf(),
            Self::applied(a, *old(self), *final(self), r, cfg.completion_callback is Some, cfg.history.lines()),
    {
        let ghost pre = *self;
        match a {
            EditAction::Accept => Effect::Done(self.buffer.as_string()),
            EditAction::Interrupt => Effect::Interrupted,
            EditAction::DeleteOrEnd => {
                if self.buffer.chars.len() == 0 {
                    Effect::EndOfInput
                } else {
                    let refresh = self.buffer.delete();
                    Effect::Continue { refresh, beep: false }
                }
            }
            EditAction::Complete => {
                if cfg.completion_callback.is_some() {
                    let line = match &self.completion_state {
                        Some(st) => st.original_line.clone(),
                        None => self.buffer.as_string(),
                    };
                    Effect::Complete(line)
                } else {
                    Effect::Continue { refresh: false, beep: false }
                }
            }
            EditAction::Older | EditAction::Newer => {
                let refresh = self.handle_history(matches!(a, EditAction::Older), &cfg.history);
                Effect::Continue { refresh, beep: false }
            }
            EditAction::ClearScreen => {
                self.old_rows = 0;
                self.cursor_row_offset = 0;
                Effect::ClearScreen
            }
            EditAction::Escape => {
                self.pending = Pending::Escape;
                Effect::Continue { refresh: false, beep: false }
            }
            EditAction::Utf8Lead(b) => {
                let needed = utf8_sequence_len(b);
                if needed == 1 {
                    Effect::Continue { refresh: false, beep: true }
                } else {
                    let mut bytes: Vec<u8> = Vec::new();
                    bytes.push(b);
                    self.pending = Pending::Utf8 { bytes, needed };
                    Effect::Continue { refresh: false, beep: false }
                }
            }
            EditAction::Ignore => Effect::Continue { refresh: false, beep: false },
            _ => {
                let refresh = edit_buffer(&mut self.buffer, a);
                let beep = matches!(a, EditAction::Insert(_)) && !refresh;
                Effect::Continue { refresh, beep }
            }
        }
    }

    /// Handles a complete key byte: any key but Tab ends a completion in
    /// progress first, then the key's action is applied.
    pub fn process_key<C, H>(&mut self, c: u8, cfg: &Config<C, H>) -> (r: Effect)
        requires
            old(self).wf(),
        ensures
            final(self).wf(),
            Self::applied(key_table(c),
                if c != TAB { Editor { completion_state: None, ..*old(self) } } else { *old(self) },
                *final(self), r, cfg.completion_callback is Some, cfg.history.lines()),
    {
        if self.completion_state.is_some() && c != TAB {
            self.accept_completion();
        }
        let a = key_action(c);
        self.apply(a, cfg)
    }

    /// Handles a byte that continues an escape sequence; see `escape_stepped`.
    pub fn handle_escape_sequence<C, H>(&mut self, c: u8, cfg: &Config<C, H>) -> (r: Effect)
        requires
            old(self).wf(),
            old(self).pending is Escape || old(self).pending is EscapeFirst || old(self).pending is DeleteKey,
        ensures
            final(self).wf(),
            Self::escape_stepped(c, *old(self), *final(self), r, cfg.completion_callback is Some, cfg.history.lines()),
    {
        match self.pending {
            Pending::Escape => {
                self.pending = Pending::EscapeFirst(c);
                Effect::Continue { refresh: false, beep: false }
            }
            Pending::EscapeFirst(b1) => {
                if b1 == 0x5b && c == 0x33 {
                    self.pending = Pending::DeleteKey;
                    Effect::Continue { refresh: false, beep: false }
                } else {
                    self.pending = Pending::Idle;
                    let a = escape_action(b1, c);
                    self.apply(a, cfg)
                }
            }
            _ => {
                self.pending = Pending::Idle;
                if c == 0x7e {
                    self.apply(EditAction::Delete, cfg)
                } else {
                    Effect::Continue { refresh: false, beep: false }
                }
            }
        }
    }

    /// Handles a byte that continues a UTF-8 sequence; see `utf8_stepped`.
    pub fn handle_utf8<C, H>(&mut self, c: u8, cfg: &Config<C, H>) -> (r: Effect)
        requires
            old(self).wf(),
            old(self).pending is Utf8,
        ensures
            final(self).wf(),
            Self::utf8_stepped(c, *old(self), *final(self), r, cfg.completion_callback is Some, cfg.history.lines()),
    {
        let ghost old_self = *self;
        let mut bytes: Vec<u8> = Vec::new();
        let mut needed: usize = 0;
        match &self.pending {
            Pending::Utf8 { bytes: b, needed: n } => {
                bytes = b.clone();
                needed = *n;
            }
            _ => {}
        }
        assert(bytes@ == old_self.pending->bytes@);
        self.pending = Pending::Idle;
        if !(c >= 0x80 && c < 0xC0) {
            return Effect::Continue { refresh: false, beep: true };
        }
        let ghost before = bytes@;
        bytes.push(c);
        assert forall|i: int| 1 <= i < bytes@.len() implies is_continuation(#[trigger] bytes@[i]) by {
            if i < before.len() {
                assert(bytes@[i] == before[i]);
            }
        }
        if bytes.len() < needed {
            self.pending = Pending::Utf8 { bytes, needed };
            return Effect::Continue { refresh: false, beep: false };
        }
        match decode_sequence(&bytes) {
            Some(ch) => {
                let r = self.apply(EditAction::Insert(ch), cfg);
                assert(ch as u32 == code_point(bytes@));
                r
            }
            None => Effect::Continue { refresh: false, beep: true },
        }
    }

    /// Feeds one input byte: a new key, or the next byte of a half-read one.
    pub fn feed<C, H>(&mut self, c: u8, cfg: &Config<C, H>) -> (r: Effect)
        requires
            old(self).wf(),
        ensures
            final(self).wf(),
            old(self).pending is Idle ==> Self::applied(key_table(c),
                if c != TAB { Editor { completion_state: None, ..*old(self) } } else { *old(self) },
                *final(self), r, cfg.completion_callback is Some, cfg.history.lines()),
            old(self).pending is Utf8 ==> Self::utf8_stepped(c, *old(self), *final(self), r,
                cfg.completion_callback is Some, cfg.history.lines()),
            (old(self).pending is Escape || old(self).pending is EscapeFirst || old(self).pending is DeleteKey)
                ==> Self::escape_stepped(c, *old(self), *final(self), r, cfg.completion_callback is Some,
                cfg.history.lines()),
    {
        match self.pending {
            Pending::Idle => self.process_key(c, cfg),
            Pending::Utf8 { .. } => self.handle_utf8(c, cfg),
            _ => self.handle_escape_sequence(c, cfg),
        }
    }

    /// No more input is available while a key is half-read: a half-read
    /// escape sequence is dropped quietly, a half-read UTF-8 sequence with the bell.
    pub fn input_exhausted(&mut self) -> (r: Effect)
        requires
            old(self).wf(),
        ensures
            final(self).wf(),
            *final(self) == (Editor { pending: Pending::Idle, ..*old(self) }),
            r == (Effect::Continue { refresh: false, beep: old(self).pending is Utf8 }),
    {
        let beep = matches!(self.pending, Pending::Utf8 { .. });
        self.pending = Pending::Idle;
        Effect::Continue { refresh: false, beep }
    }
}

/// Applies a line-editing action to the buffer; see `edited`.
fn edit_buffer(buf: &mut LineBuffer, a: EditAction) -> (r: bool)
    requires
        old(buf).wf(),
        is_buffer_action(a),
    ensures
        final(buf).wf(),
        (final(buf).text(), final(buf).pos as nat, r) == edited(old(buf).text(), old(buf).pos as nat, a),
{
    match a {
        EditAction::Backspace => {
            buf.backspace();
            true
        }
        EditAction::Delete => buf.delete(),
        EditAction::Clear => {
            buf.clear();
            true
        }
        EditAction::DeleteToEnd => {
            buf.delete_to_end();
            true
        }
        EditAction::DeleteWord => {
            buf.delete_word();
            true
        }
        EditAction::Home => {
            buf.move_home();
            true
        }
        EditAction::End => {
            buf.move_end();
            true
        }
        EditAction::Left => {
            buf.move_left();
            true
        }
        EditAction::Right => {
            buf.move_right();
            true
        }
        EditAction::Transpose => buf.transpose(),
        EditAction::Insert(c) => buf.insert(c),
        _ => false,
    }
}

} // verus!
