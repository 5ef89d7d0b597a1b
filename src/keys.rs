//! The input decoder's tables: which edit action a key byte, an escape
//! sequence or a UTF-8 sequence stands for.

use vstd::prelude::*;

verus! {

/// What a key asks of the editor.
#[derive(Clone, Copy, PartialEq, Eq, Debug, Structural)]
pub enum EditAction {
    /// Enter: the line is done.
    Accept,
    /// Ctrl-C: the session is aborted.
    Interrupt,
    /// Ctrl-D: end of input on an empty line, else delete under the cursor.
    DeleteOrEnd,
    /// Tab: show the next completion.
    Complete,
    /// Backspace or Ctrl-H.
    Backspace,
    /// Ctrl-U: empty the line.
    Clear,
    /// Ctrl-K.
    DeleteToEnd,
    /// Ctrl-W.
    DeleteWord,
    /// Ctrl-A, `ESC [ H`, `ESC O H`.
    Home,
    /// Ctrl-E, `ESC [ F`, `ESC O F`.
    End,
    /// Ctrl-B, `ESC [ D`.
    Left,
    /// Ctrl-F, `ESC [ C`.
    Right,
    /// Ctrl-P, `ESC [ A`: an older history entry.
    Older,
    /// Ctrl-N, `ESC [ B`: a newer history entry.
    Newer,
    /// Ctrl-L: clear the screen and redraw.
    ClearScreen,
    /// Ctrl-T: exchange the characters around the cursor.
    Transpose,
    /// The escape byte: an escape sequence follows.
    Escape,
    /// `ESC [ 3 ~`: delete under the cursor.
    Delete,
    /// A printable character to insert.
    Insert(char),
    /// The first byte of a multi-byte UTF-8 sequence, or an invalid byte above 127.
    Utf8Lead(u8),
    /// Anything else: no effect.
    Ignore,
}

/// The byte of each control key.
pub const CTRL_A: u8 = 1;
pub const CTRL_B: u8 = 2;
pub const CTRL_C: u8 = 3;
pub const CTRL_D: u8 = 4;
pub const CTRL_E: u8 = 5;
pub const CTRL_F: u8 = 6;
pub const CTRL_H: u8 = 8;
pub const TAB: u8 = 9;
pub const CTRL_K: u8 = 11;
pub const CTRL_L: u8 = 12;
pub const ENTER: u8 = 13;
pub const CTRL_N: u8 = 14;
pub const CTRL_P: u8 = 16;
pub const CTRL_T: u8 = 20;
pub const CTRL_U: u8 = 21;
pub const CTRL_W: u8 = 23;
pub const ESC: u8 = 27;
pub const BACKSPACE: u8 = 127;

/// The key table.
pub open spec fn key_table(c: u8) -> EditAction {
    if c == ENTER {
        EditAction::Accept
    } else if c == CTRL_C {
        EditAction::Interrupt
    } else if c == CTRL_D {
        EditAction::DeleteOrEnd
    } else if c == TAB {
        EditAction::Complete
    } else if c == BACKSPACE || c == CTRL_H {
        EditAction::Backspace
    } else if c == CTRL_U {
        EditAction::Clear
    } else if c == CTRL_K {
        EditAction::DeleteToEnd
    } else if c == CTRL_W {
        EditAction::DeleteWord
    } else if c == CTRL_A {
        EditAction::Home
    } else if c == CTRL_E {
        EditAction::End
    } else if c == CTRL_B {
        EditAction::Left
    } else if c == CTRL_F {
        EditAction::Right
    } else if c == CTRL_P {
        EditAction::Older
    } else if c == CTRL_N {
        EditAction::Newer
    } else if c == CTRL_L {
        EditAction::ClearScreen
    } else if c == CTRL_T {
        EditAction::Transpose
    } else if c == ESC {
        EditAction::Escape
    } else if 32 <= c < 127 {
        EditAction::Insert(c as char)
    } else if c >= 128 {
        EditAction::Utf8Lead(c)
    } else {
        EditAction::Ignore
    }
}

/// The action of a key byte.
pub fn key_action(c: u8) -> (r: EditAction)
    ensures
        r == key_table(c),
{
    if c == ENTER {
        EditAction::Accept
    } else if c == CTRL_C {
        EditAction::Interrupt
    } else if c == CTRL_D {
        EditAction::DeleteOrEnd
    } else if c == TAB {
        EditAction::Complete
    } else if c == BACKSPACE || c == CTRL_H {
        EditAction::Backspace
    } else if c == CTRL_U {
        EditAction::Clear
    } else if c == CTRL_K {
        EditAction::DeleteToEnd
    } else if c == CTRL_W {
        EditAction::DeleteWord
    } else if c == CTRL_A {
        EditAction::Home
    } else if c == CTRL_E {
        EditAction::End
    } else if c == CTRL_B {
        EditAction::Left
    } else if c == CTRL_F {
        EditAction::Right
    } else if c == CTRL_P {
        EditAction::Older
    } else if c == CTRL_N {
        EditAction::Newer
    } else if c == CTRL_L {
        EditAction::ClearScreen
    } else if c == CTRL_T {
        EditAction::Transpose
    } else if c == ESC {
        EditAction::Escape
    } else if 32 <= c && c < 127 {
        EditAction::Insert(c as char)
    } else if c >= 128 {
        EditAction::Utf8Lead(c)
    } else {
        EditAction::Ignore
    }
}

/// The action of the two bytes after an escape byte, where they name one.
/// `ESC [ 3` is the start of the delete key and is not listed here.
pub open spec fn escape_table(b1: u8, b2: u8) -> EditAction {
    if b1 == 0x5b && b2 == 0x41 {
        EditAction::Older
    } else if b1 == 0x5b && b2 == 0x42 {
        EditAction::Newer
    } else if b1 == 0x5b && b2 == 0x43 {
        EditAction::Right
    } else if b1 == 0x5b && b2 == 0x44 {
        EditAction::Left
    } else if (b1 == 0x5b || b1 == 0x4f) && b2 == 0x48 {
        EditAction::Home
    } else if (b1 == 0x5b || b1 == 0x4f) && b2 == 0x46 {
        EditAction::End
    } else {
        EditAction::Ignore
    }
}

/// The action of an escape sequence's two bytes.
pub fn escape_action(b1: u8, b2: u8) -> (r: EditAction)
    ensures
        r == escape_table(b1, b2),
{
    if b1 == 0x5b && b2 == 0x41 {
        EditAction::Older
    } else if b1 == 0x5b && b2 == 0x42 {
        EditAction::Newer
    } else if b1 == 0x5b && b2 == 0x43 {
        EditAction::Right
    } else if b1 == 0x5b && b2 == 0x44 {
        EditAction::Left
    } else if (b1 == 0x5b || b1 == 0x4f) && b2 == 0x48 {
        EditAction::Home
    } else if (b1 == 0x5b || b1 == 0x4f) && b2 == 0x46 {
        EditAction::End
    } else {
        EditAction::Ignore
    }
}

/// Length of the UTF-8 sequence that `lead` begins: 2, 3 or 4, or 1 for a
/// byte that begins none.
pub open spec fn utf8_len(lead: u8) -> nat {
    if 0xC0 <= lead < 0xE0 {
        2
    } else if 0xE0 <= lead < 0xF0 {
        3
    } else if 0xF0 <= lead < 0xF8 {
        4
    } else {
        1
    }
}

pub fn utf8_sequence_len(lead: u8) -> (r: usize)
    ensures
        r == utf8_len(lead),
{
    if lead >= 0xC0 && lead < 0xE0 {
        2
    } else if lead >= 0xE0 && lead < 0xF0 {
        3
    } else if lead >= 0xF0 && lead < 0xF8 {
        4
    } else {
        1
    }
}

/// A continuation byte: `10xxxxxx`.
pub open spec fn is_continuation(b: u8) -> bool {
    0x80 <= b < 0xC0
}

/// The code point a complete sequence encodes, from the payload bits of each byte.
pub open spec fn code_point(bytes: Seq<u8>) -> int {
    if bytes.len() == 2 {
        (bytes[0] - 0xC0) * 64 + (bytes[1] - 0x80)
    } else if bytes.len() == 3 {
        (bytes[0] - 0xE0) * 4096 + (bytes[1] - 0x80) * 64 + (bytes[2] - 0x80)
    } else {
        (bytes[0] - 0xF0) * 262144 + (bytes[1] - 0x80) * 4096 + (bytes[2] - 0x80) * 64 + (bytes[3] - 0x80)
    }
}

/// Smallest code point that a sequence of `n` bytes may encode: a smaller one
/// is an overlong encoding.
pub open spec fn least_code_point(n: nat) -> int {
    if n == 2 {
        0x80
    } else if n == 3 {
        0x800
    } else {
        0x10000
    }
}

/// A Unicode scalar value: not a surrogate, not past the last plane.
pub open spec fn is_scalar(cp: int) -> bool {
    0 <= cp <= 0x10FFFF && !(0xD800 <= cp <= 0xDFFF)
}

/// A complete sequence (a lead byte and its continuation bytes) is valid
/// UTF-8 when it is not overlong and encodes a scalar value.
pub open spec fn valid_sequence(bytes: Seq<u8>) -> bool {
    code_point(bytes) >= least_code_point(bytes.len()) && is_scalar(code_point(bytes))
}

/// Relies on `char::from_u32`: the character whose scalar value is `cp`,
/// `None` for a surrogate or a value past `0x10FFFF`.
#[verifier::external_body]
fn char_from_u32(cp: u32) -> (r: Option<char>)
    ensures
        r is Some <==> is_scalar(cp as int),
        r is Some ==> r->0 as u32 == cp,
{
    char::from_u32(cp)
}

/// Decodes a complete sequence: the character, or `None` when the sequence is
/// overlong or encodes no scalar value.
pub fn decode_sequence(bytes: &Vec<u8>) -> (r: Option<char>)
    requires
        2 <= bytes@.len() <= 4,
        utf8_len(bytes@[0]) == bytes@.len(),
        forall|i: int| 1 <= i < bytes@.len() ==> is_continuation(#[trigger] bytes@[i]),
    ensures
        r is Some <==> valid_sequence(bytes@),
        r is Some ==> r->0 as u32 == code_point(bytes@),
{
    let n = bytes.len();
    let cp: u32 = if n == 2 {
        (bytes[0] - 0xC0) as u32 * 64 + (bytes[1] - 0x80) as u32
    } else if n == 3 {
        (bytes[0] - 0xE0) as u32 * 4096 + (bytes[1] - 0x80) as u32 * 64 + (bytes[2] - 0x80) as u32
    } else {
        (bytes[0] - 0xF0) as u32 * 262144 + (bytes[1] - 0x80) as u32 * 4096
            + (bytes[2] - 0x80) as u32 * 64 + (bytes[3] - 0x80) as u32
    };
    assert(cp == code_point(bytes@));
    let least: u32 = if n == 2 { 0x80 } else if n == 3 { 0x800 } else { 0x10000 };
    if cp < least {
        return None;
    }
    char_from_u32(cp)
}

} // verus!
