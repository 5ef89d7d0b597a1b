//! Redrawing: the exact escape sequences that bring the screen in line with
//! the prompt, the line, the cursor and an optional hint.

use vstd::prelude::*;
use crate::MAX_LINE;
use crate::buffer::LineBuffer;
use crate::text::{chars_of, push_chars, push_str};

verus! {

/// One decimal digit.
pub open spec fn digit(d: nat) -> char {
    seq!['0', '1', '2', '3', '4', '5', '6', '7', '8', '9'][(d % 10) as int]
}

/// The decimal digits of `n`, most significant first, without leading zeros.
pub open spec fn decimal(n: nat) -> Seq<char>
    decreases n,
{
    if n < 10 {
        seq![digit(n)]
    } else {
        decimal(n / 10).push(digit(n % 10))
    }
}

/// The digit character of `d`, below 10.
fn digit_char(d: usize) -> (r: char)
    requires
        d < 10,
    ensures
        r == digit(d as nat),
{
    let r = if d == 0 { '0' } else if d == 1 { '1' } else if d == 2 { '2' } else if d == 3 { '3' }
        else if d == 4 { '4' } else if d == 5 { '5' } else if d == 6 { '6' } else if d == 7 { '7' }
        else if d == 8 { '8' } else { '9' };
    r
}

/// Appends the decimal digits of `n`.
fn push_decimal(out: &mut Vec<char>, n: usize)
    ensures
        final(out)@ == old(out)@ + decimal(n as nat),
    decreases n,
{
    let ghost start = out@;
    if n >= 10 {
        push_decimal(out, n / 10);
    }
    out.push(digit_char(n % 10));
    assert(out@ =~= start + decimal(n as nat));
}

/// `ESC [ n <c>`: a control sequence with one numeric parameter.
pub open spec fn csi(n: nat, c: char) -> Seq<char> {
    seq!['\x1b', '['] + decimal(n) + seq![c]
}

fn push_csi(out: &mut Vec<char>, n: usize, c: char)
    ensures
        final(out)@ == old(out)@ + csi(n as nat, c),
{
    let ghost start = out@;
    out.push('\x1b');
    out.push('[');
    push_decimal(out, n);
    out.push(c);
    assert(out@ =~= start + csi(n as nat, c));
}

/// What stands for the line on screen: the line itself, or as many `*` when masked.
pub open spec fn shown(text: Seq<char>, mask: bool) -> Seq<char> {
    if mask {
        Seq::new(text.len(), |i: int| '*')
    } else {
        text
    }
}

fn shown_chars(buf: &LineBuffer, mask: bool) -> (r: Vec<char>)
    ensures
        r@ == shown(buf.text(), mask),
{
    if mask {
        let mut r: Vec<char> = Vec::new();
        let mut i: usize = 0;
        while i < buf.chars.len()
            invariant
                i <= buf.chars@.len(),
                r@ == Seq::new(i as nat, |k: int| '*'),
            decreases buf.chars@.len() - i,
        {
            r.push('*');
            i = i + 1;
            assert(r@ =~= Seq::new(i as nat, |k: int| '*'));
        }
        r
    } else {
        buf.chars.clone()
    }
}

/// The first `n` characters of `s`, or all of them when it is shorter.
pub open spec fn take(s: Seq<char>, n: nat) -> Seq<char> {
    if s.len() <= n {
        s
    } else {
        s.subrange(0, n as int)
    }
}

/// A hint as drawn: bold and colour attributes, the text, and a reset.
pub open spec fn styled(text: Seq<char>, color: i32, bold: bool) -> Seq<char> {
    (if bold { seq!['\x1b', '[', '1', 'm'] } else { Seq::empty() })
        + (if color >= 0 { csi(color as nat, 'm') } else { Seq::empty() })
        + text
        + seq!['\x1b', '[', '0', 'm']
}

fn push_styled(out: &mut Vec<char>, text: &[char], color: i32, bold: bool)
    ensures
        final(out)@ == old(out)@ + styled(text@, color, bold),
{
    let ghost start = out@;
    if bold {
        push_str(out, "\x1b[1m");
        proof { reveal_strlit("\x1b[1m"); }
    }
    let ghost a = out@;
    if color >= 0 {
        push_csi(out, color as usize, 'm');
    }
    let ghost b = out@;
    push_chars(out, text);
    push_str(out, "\x1b[0m");
    proof {
        reveal_strlit("\x1b[0m");
        let bs: Seq<char> = if bold { seq!['\x1b', '[', '1', 'm'] } else { Seq::empty() };
        let cs: Seq<char> = if color >= 0 { csi(color as nat, 'm') } else { Seq::empty() };
        assert(a =~= start + bs);
        assert(b =~= start + bs + cs);
        assert(out@ =~= start + styled(text@, color, bold));
    }
}

/// Columns left of `cols` after `used` of them are taken, or 0.
pub open spec fn cols_left(cols: nat, used: nat) -> nat {
    if cols > used {
        (cols - used) as nat
    } else {
        0
    }
}

/// Where the window of a line too long for the screen begins: centred on
/// the cursor as far as the line allows, and moved right when needed so that
/// the cursor falls on one of the `avail` columns (at the end of the line the
/// cursor takes a column of its own).
pub open spec fn window_start(len: nat, pos: nat, avail: nat) -> nat {
    let ws: nat = if pos > avail / 2 { (pos - avail / 2) as nat } else { 0 };
    let we: nat = if ws + avail < len { ws + avail } else { len };
    let s0: nat = if we > avail { (we - avail) as nat } else { 0 };
    if avail > 0 && pos >= s0 + avail { (pos + 1 - avail) as nat } else { s0 }
}

/// Where the window that begins at `start` ends: `avail` characters on, or
/// the end of the line.
pub open spec fn window_end(len: nat, start: nat, avail: nat) -> nat {
    if start + avail < len { start + avail } else { len }
}

/// The window holds the cursor and at most `avail` characters; on a screen
/// with room for any of the line, the cursor stands on one of its columns.
pub proof fn lemma_window_shows_cursor(len: nat, pos: nat, avail: nat)
    requires
        pos <= len,
        len > avail,
    ensures
        window_start(len, pos, avail) <= pos,
        window_start(len, pos, avail) <= window_end(len, window_start(len, pos, avail), avail) <= len,
        window_end(len, window_start(len, pos, avail), avail) - window_start(len, pos, avail) <= avail,
        avail > 0 ==> pos - window_start(len, pos, avail) < avail,
{
}

fn window_start_of(len: usize, pos: usize, avail: usize) -> (r: usize)
    requires
        pos <= len,
        len > avail,
    ensures
        r == window_start(len as nat, pos as nat, avail as nat),
        r <= pos,
{
    let ws: usize = if pos > avail / 2 { pos - avail / 2 } else { 0 };
    let we: usize = if avail < len - ws { ws + avail } else { len };
    let s0: usize = if we > avail { we - avail } else { 0 };
    if avail > 0 && pos - s0 >= avail { pos - (avail - 1) } else { s0 }
}

/// The hint part of a single-line redraw: drawn only while no completion is
/// shown and when columns are left after the line.
pub open spec fn single_hint(hint: Option<(Seq<char>, i32, bool)>, left: nat, completing: bool) -> Seq<char> {
    match hint {
        Some(h) if !completing && left > 0 => styled(take(h.0, left), h.1, h.2),
        _ => Seq::empty(),
    }
}

/// The hint as plain values.
pub open spec fn hint_view(hint: Option<(String, i32, bool)>) -> Option<(Seq<char>, i32, bool)> {
    match hint {
        Some(h) => Some((h.0@, h.1, h.2)),
        None => None,
    }
}

/// The part of a single-line redraw between prompt and erase: the window of
/// the line around the cursor when the line does not fit in `avail` columns,
/// else the whole line and the hint.
pub open spec fn single_body(
    text: Seq<char>,
    pos: nat,
    avail: nat,
    mask: bool,
    hint: Option<(Seq<char>, i32, bool)>,
    completing: bool,
) -> Seq<char> {
    let content = shown(text, mask);
    if text.len() > avail {
        let ws = window_start(text.len(), pos, avail);
        content.subrange(ws as int, window_end(text.len(), ws, avail) as int)
    } else {
        content + single_hint(hint, (avail - text.len()) as nat, completing)
    }
}

/// Screen column of the cursor in a single-line redraw.
pub open spec fn single_cursor(plen: nat, len: nat, pos: nat, avail: nat) -> nat {
    if len > avail {
        plen + (pos - window_start(len, pos, avail)) as nat
    } else {
        plen + pos
    }
}

/// The whole single-line redraw: carriage return, prompt, the visible part of
/// the line, erase to end of line, and the cursor put back by column.
pub open spec fn single_line(
    prompt: Seq<char>,
    text: Seq<char>,
    pos: nat,
    cols: nat,
    mask: bool,
    hint: Option<(Seq<char>, i32, bool)>,
    completing: bool,
) -> Seq<char> {
    let avail = cols_left(cols, prompt.len());
    seq!['\r'] + prompt + single_body(text, pos, avail, mask, hint, completing)
        + seq!['\x1b', '[', '0', 'K', '\r'] + csi(single_cursor(prompt.len(), text.len(), pos, avail), 'C')
}

fn single_body_chars(
    buf: &LineBuffer,
    avail: usize,
    mask: bool,
    hint: &Option<(String, i32, bool)>,
    completing: bool,
) -> (r: Vec<char>)
    requires
        buf.wf(),
    ensures
        r@ == single_body(buf.text(), buf.pos as nat, avail as nat, mask, hint_view(*hint), completing),
{
    let content = shown_chars(buf, mask);
    let len = buf.chars.len();
    let pos = buf.pos;
    let mut out: Vec<char> = Vec::new();
    if len > avail {
        let start = window_start_of(len, pos, avail);
        let end: usize = if avail < len - start { start + avail } else { len };
        let mut i: usize = start;
        while i < end
            invariant
                start <= end <= len,
                len == content@.len(),
                start <= i <= end,
                out@ == content@.subrange(start as int, i as int),
            decreases end - i,
        {
            out.push(content[i]);
            i = i + 1;
            assert(content@.subrange(start as int, i as int)
                =~= content@.subrange(start as int, i - 1) + seq![content@[i - 1]]);
        }
    } else {
        out = content;
        let ghost before_hint = out@;
        match hint {
            Some(h) => {
                if !completing && avail - len > 0 {
                    let hc = chars_of(h.0.as_str());
                    let n = avail - len;
                    let shown_hint: Vec<char> = if hc.len() <= n { hc } else {
                        let mut t = hc;
                        t.truncate(n);
                        t
                    };
                    push_styled(&mut out, shown_hint.as_slice(), h.1, h.2);
                }
            }
            None => {}
        }
        assert(out@ =~= before_hint + single_hint(hint_view(*hint), (avail - len) as nat, completing));
    }
    out
}

/// Redraws the line in single-line mode.
pub fn refresh_singleline(
    prompt: &[char],
    buf: &LineBuffer,
    cols: usize,
    mask: bool,
    hint: &Option<(String, i32, bool)>,
    completing: bool,
) -> (r: String)
    requires
        buf.wf(),
        prompt@.len() + MAX_LINE <= usize::MAX,
    ensures
        r@ == single_line(prompt@, buf.text(), buf.pos as nat, cols as nat, mask, hint_view(*hint), completing),
        cols > prompt@.len() && buf.text().len() > cols_left(cols as nat, prompt@.len())
            ==> single_cursor(prompt@.len(), buf.text().len(), buf.pos as nat,
            cols_left(cols as nat, prompt@.len())) < cols,
{
    let plen = prompt.len();
    proof {
        let avail = cols_left(cols as nat, prompt@.len());
        if buf.text().len() > avail {
            lemma_window_shows_cursor(buf.text().len(), buf.pos as nat, avail);
        }
    }
    let avail: usize = if cols > plen { cols - plen } else { 0 };
    let len = buf.chars.len();
    let pos = buf.pos;
    let cursor: usize = if len > avail {
        let start = window_start_of(len, pos, avail);
        plen + (pos - start)
    } else {
        plen + pos
    };
    assert(cursor == single_cursor(plen as nat, len as nat, pos as nat, avail as nat));
    let mut out: Vec<char> = Vec::new();
    out.push('\r');
    push_chars(&mut out, prompt);
    let body = single_body_chars(buf, avail, mask, hint, completing);
    push_chars(&mut out, body.as_slice());
    push_str(&mut out, "\x1b[0K\r");
    proof { reveal_strlit("\x1b[0K\r"); }
    push_csi(&mut out, cursor, 'C');
    crate::text::string_of(out.as_slice())
}

/// Where a multi-line redraw puts things, in rows of `cols` columns.
pub struct RowLayout {
    /// Rows taken by the prompt and the line, at least one.
    pub content_rows: usize,
    /// The cursor is at the end of the line and exactly on a row boundary,
    /// so an empty row is added below the content for it.
    pub phantom: bool,
    /// Rows drawn in all: the content rows and the phantom row, if any.
    pub total_rows: usize,
    /// Row of the cursor, counted from the row of the prompt.
    pub cursor_row: usize,
    /// Column of the cursor in its row.
    pub cursor_col: usize,
}

/// Rows that `n` characters fill at `cols` per row, and at least one.
pub open spec fn rows_for(n: nat, cols: nat) -> nat
    recommends
        cols > 0,
{
    if n == 0 {
        1
    } else {
        ((n + cols - 1) as nat / cols) as nat
    }
}

/// The phantom-row condition: the cursor is past the end of a full row.
pub open spec fn needs_phantom(plen: nat, len: nat, pos: nat, cols: nat) -> bool {
    pos == len && plen + pos > 0 && ((plen + pos) as int) % (cols as int) == 0
}

impl RowLayout {
    /// The layout of a prompt of `plen` characters followed by a line of
    /// `len` characters with the cursor at `pos`, on rows of `cols` columns.
    pub open spec fn describes(&self, plen: nat, len: nat, pos: nat, cols: nat) -> bool {
        let cursor = plen + pos;
        let phantom = needs_phantom(plen, len, pos, cols);
        &&& self.content_rows == rows_for(plen + len, cols)
        &&& self.phantom == phantom
        &&& self.total_rows == self.content_rows + if phantom { 1nat } else { 0nat }
        &&& self.cursor_row == (cursor as int) / (cols as int)
        &&& self.cursor_col == (cursor as int) % (cols as int)
    }
}

/// Computes the multi-line layout.
pub fn multiline_layout(plen: usize, len: usize, pos: usize, cols: usize) -> (r: RowLayout)
    requires
        cols > 0,
        pos <= len < MAX_LINE,
        plen + MAX_LINE <= usize::MAX,
    ensures
        r.describes(plen as nat, len as nat, pos as nat, cols as nat),
        r.total_rows >= 1,
        r.cursor_row < r.total_rows,
{
    let content_len = plen + len;
    let cursor_pos = plen + pos;
    let content_rows: usize = if content_len == 0 { 1 } else { (content_len - 1) / cols + 1 };
    proof {
        if content_len > 0 {
            assert((content_len - 1) / (cols as int) + 1 == (content_len + cols - 1) / (cols as int))
                by (nonlinear_arith)
                requires content_len > 0, cols > 0;
            assert((content_len - 1) / (cols as int) <= content_len - 1) by (nonlinear_arith)
                requires content_len > 0, cols > 0;
        }
    }
    let phantom = pos == len && cursor_pos > 0 && cursor_pos % cols == 0;
    let total_rows = if phantom { content_rows + 1 } else { content_rows };
    let cursor_row: usize = cursor_pos / cols;
    let cursor_col: usize = cursor_pos % cols;
    proof {
        let cp = cursor_pos as int;
        let n = content_len as int;
        let w = cols as int;
        if phantom {
            assert(cp / w == (n - 1) / w + 1) by (nonlinear_arith)
                requires cp == n, cp > 0, cp % w == 0, w > 0;
        } else if cp < n {
            assert(cp / w <= (n - 1) / w) by (nonlinear_arith)
                requires cp <= n - 1, cp >= 0, w > 0;
        } else if cp > 0 {
            assert(cp / w == (n - 1) / w) by (nonlinear_arith)
                requires cp == n, cp > 0, cp % w != 0, w > 0;
        }
    }
    RowLayout { content_rows, phantom, total_rows, cursor_row, cursor_col }
}

/// Row count of a multi-line redraw: the content takes the smallest number of
/// full rows that holds it (one when there is nothing to draw), and exactly
/// one more row is drawn when the cursor stands at the end of the line on a
/// multiple of the width.
pub proof fn lemma_row_count(plen: nat, len: nat, pos: nat, cols: nat, r: RowLayout)
    requires
        cols > 0,
        pos <= len,
        r.describes(plen, len, pos, cols),
    ensures
        plen + len > 0 ==> (r.content_rows - 1) * cols < plen + len <= r.content_rows * cols,
        plen + len == 0 ==> r.content_rows == 1,
        r.total_rows == r.content_rows + 1 <==> (pos == len && plen + pos > 0 && ((plen + pos) as int) % (cols as int) == 0),
        r.total_rows == r.content_rows || r.total_rows == r.content_rows + 1,
{
    let n = plen + len;
    if n > 0 {
        let q = ((n + cols - 1) as nat / cols) as nat;
        assert((q - 1) * cols < n <= q * cols) by (nonlinear_arith)
            requires n > 0, cols > 0, q == (n + cols - 1) / (cols as int);
    }
}

/// The hint part of a multi-line redraw: only when the content fits on one
/// row with no phantom row and no completion shown, and only the characters
/// that fit on that row.
pub open spec fn multi_hint(
    hint: Option<(Seq<char>, i32, bool)>,
    content_len: nat,
    cols: nat,
    one_row: bool,
    completing: bool,
) -> Seq<char> {
    let last = content_len % cols;
    let space: nat = if last == 0 { 0 } else { (cols - last) as nat };
    match hint {
        Some(h) if one_row && !completing && space > 0 && take(h.0, space).len() > 0 =>
            styled(take(h.0, space), h.1, h.2),
        _ => Seq::empty(),
    }
}

/// Erasing `n` rows from the top one down: each cleared, with a line break between them.
pub open spec fn clear_rows(n: nat) -> Seq<char>
    decreases n,
{
    if n == 0 {
        Seq::empty()
    } else if n == 1 {
        seq!['\x1b', '[', '2', 'K']
    } else {
        clear_rows((n - 1) as nat) + seq!['\r', '\n', '\x1b', '[', '2', 'K']
    }
}

/// `s` when `b` holds, else nothing.
pub open spec fn when(b: bool, s: Seq<char>) -> Seq<char> {
    if b {
        s
    } else {
        Seq::empty()
    }
}

/// The erase part of a multi-line redraw: up to the first row drawn last time,
/// clear `n` rows, and back to the start of the first of them.
pub open spec fn multi_erase(old_offset: nat, n: nat) -> Seq<char> {
    seq!['\r'] + when(old_offset > 0, csi(old_offset, 'A')) + clear_rows(n)
        + when(n > 1, csi((n - 1) as nat, 'A')) + seq!['\r']
}

/// The closing part of a multi-line redraw: the phantom row, then from the
/// last row drawn to the cursor's row and column.
pub open spec fn multi_tail(l: RowLayout) -> Seq<char> {
    let last_row = l.total_rows - 1;
    let target = l.cursor_row as int;
    when(l.phantom, seq!['\r', '\n'])
        + (if target < last_row {
            csi((last_row - target) as nat, 'A')
        } else if target > last_row {
            csi((target - last_row) as nat, 'B')
        } else {
            Seq::empty()
        })
        + seq!['\r'] + csi(l.cursor_col as nat, 'C')
}

/// The whole multi-line redraw: erase as many rows as were or will be drawn,
/// then prompt, line and hint, then the cursor.
pub open spec fn multi_line(
    prompt: Seq<char>,
    text: Seq<char>,
    mask: bool,
    hint: Option<(Seq<char>, i32, bool)>,
    completing: bool,
    cols: nat,
    old_rows: nat,
    old_offset: nat,
    l: RowLayout,
) -> Seq<char> {
    let clear = if old_rows > l.total_rows { old_rows } else { l.total_rows as nat };
    multi_erase(old_offset, clear) + prompt + shown(text, mask)
        + multi_hint(hint, prompt.len() + text.len(), cols, l.content_rows == 1 && !l.phantom, completing)
        + multi_tail(l)
}

fn push_when_csi(out: &mut Vec<char>, b: bool, n: usize, c: char)
    ensures
        final(out)@ == old(out)@ + when(b, csi(n as nat, c)),
{
    if b {
        push_csi(out, n, c);
    } else {
        assert(out@ =~= out@ + when(b, csi(n as nat, c)));
    }
}

fn erase_block(old_offset: usize, clear: usize) -> (r: Vec<char>)
    ensures
        r@ == multi_erase(old_offset as nat, clear as nat),
{
    let mut out: Vec<char> = Vec::new();
    out.push('\r');
    push_when_csi(&mut out, old_offset > 0, old_offset, 'A');
    let ghost c0 = out@;
    let mut i: usize = 0;
    while i < clear
        invariant
            i <= clear,
            out@ == c0 + clear_rows(i as nat),
        decreases clear - i,
    {
        if i > 0 {
            out.push('\r');
            out.push('\n');
        }
        push_str(&mut out, "\x1b[2K");
        proof { reveal_strlit("\x1b[2K"); }
        i = i + 1;
        assert(out@ =~= c0 + clear_rows(i as nat));
    }
    let ghost c1 = out@;
    let up: usize = if clear > 1 { clear - 1 } else { 0 };
    push_when_csi(&mut out, clear > 1, up, 'A');
    assert(when(clear > 1, csi(up as nat, 'A')) == when(clear as nat > 1, csi((clear - 1) as nat, 'A')));
    out.push('\r');
    out
}

fn push_multi_hint(
    out: &mut Vec<char>,
    hint: &Option<(String, i32, bool)>,
    content_len: usize,
    cols: usize,
    one_row: bool,
    completing: bool,
)
    requires
        cols > 0,
    ensures
        final(out)@ == old(out)@ + multi_hint(hint_view(*hint), content_len as nat, cols as nat, one_row, completing),
{
    let ghost start = out@;
    if one_row && !completing {
        match hint {
            Some(h) => {
                let last = content_len % cols;
                let space: usize = if last == 0 { 0 } else { cols - last };
                if space > 0 {
                    let hc = chars_of(h.0.as_str());
                    let shown_hint: Vec<char> = if hc.len() <= space { hc } else {
                        let mut t = hc;
                        t.truncate(space);
                        t
                    };
                    if shown_hint.len() > 0 {
                        push_styled(out, shown_hint.as_slice(), h.1, h.2);
                    }
                }
            }
            None => {}
        }
    }
    assert(out@ =~= start + multi_hint(hint_view(*hint), content_len as nat, cols as nat, one_row, completing));
}

fn push_tail(out: &mut Vec<char>, l: &RowLayout)
    requires
        l.total_rows >= 1,
    ensures
        final(out)@ == old(out)@ + multi_tail(*l),
{
    let ghost start = out@;
    if l.phantom {
        out.push('\r');
        out.push('\n');
    }
    let ghost a = out@;
    assert(a =~= start + when(l.phantom, seq!['\r', '\n']));
    let last_row = l.total_rows - 1;
    if l.cursor_row < last_row {
        push_csi(out, last_row - l.cursor_row, 'A');
    } else if l.cursor_row > last_row {
        push_csi(out, l.cursor_row - last_row, 'B');
    } else {
        assert(out@ =~= a + Seq::<char>::empty());
    }
    out.push('\r');
    push_csi(out, l.cursor_col, 'C');
    assert(out@ =~= start + multi_tail(*l));
}

/// Redraws the line in multi-line mode, given how many rows the previous
/// redraw drew and on which of them it left the cursor. Returns the output
/// and the layout, whose row count and cursor row the next redraw needs.
pub fn refresh_multiline(
    prompt: &[char],
    buf: &LineBuffer,
    cols: usize,
    mask: bool,
    hint: &Option<(String, i32, bool)>,
    completing: bool,
    old_rows: usize,
    old_offset: usize,
) -> (r: (String, RowLayout))
    requires
        buf.wf(),
        cols > 0,
        prompt@.len() + MAX_LINE <= usize::MAX,
    ensures
        r.1.describes(prompt@.len(), buf.text().len(), buf.pos as nat, cols as nat),
        r.1.total_rows >= 1,
        r.1.cursor_row < r.1.total_rows,
        r.0@ == multi_line(prompt@, buf.text(), mask, hint_view(*hint), completing, cols as nat,
            old_rows as nat, old_offset as nat, r.1),
{
    let plen = prompt.len();
    let len = buf.chars.len();
    let l = multiline_layout(plen, len, buf.pos, cols);
    let clear: usize = if old_rows > l.total_rows { old_rows } else { l.total_rows };
    let mut out = erase_block(old_offset, clear);
    push_chars(&mut out, prompt);
    let content = shown_chars(buf, mask);
    push_chars(&mut out, content.as_slice());
    push_multi_hint(&mut out, hint, plen + len, cols, l.content_rows == 1 && !l.phantom, completing);
    push_tail(&mut out, &l);
    (crate::text::string_of(out.as_slice()), l)
}

} // verus!
