//! The editable line: a sequence of characters and a cursor inside it.

use vstd::prelude::*;
use crate::MAX_LINE;
use crate::text::{chars_of, string_of};

verus! {

/// Position reached from `p` by stepping left over the spaces just before it.
pub open spec fn skip_spaces(s: Seq<char>, p: int) -> int
    decreases p,
{
    if 0 < p <= s.len() && s[p - 1] == ' ' {
        skip_spaces(s, p - 1)
    } else {
        p
    }
}

/// Position reached from `p` by stepping left over the non-space characters just before it.
pub open spec fn skip_word(s: Seq<char>, p: int) -> int
    decreases p,
{
    if 0 < p <= s.len() && s[p - 1] != ' ' {
        skip_word(s, p - 1)
    } else {
        p
    }
}

/// Start of the span that deleting a word backwards from `p` removes:
/// the run of spaces before `p`, then the word before that run.
pub open spec fn word_start(s: Seq<char>, p: int) -> int {
    skip_word(s, skip_spaces(s, p))
}

/// `s` with the characters at `i` and `j` exchanged.
pub open spec fn swapped(s: Seq<char>, i: int, j: int) -> Seq<char> {
    s.update(i, s[j]).update(j, s[i])
}

/// The first `MAX_LINE - 1` characters of `s`.
pub open spec fn clipped(s: Seq<char>) -> Seq<char> {
    if s.len() < MAX_LINE {
        s
    } else {
        s.subrange(0, MAX_LINE - 1)
    }
}

/// Skipping spaces stays within `[0, p]` and passes over spaces only.
pub proof fn lemma_skip_spaces_bounds(s: Seq<char>, p: int)
    requires
        0 <= p <= s.len(),
    ensures
        0 <= skip_spaces(s, p) <= p,
        forall|i: int| skip_spaces(s, p) <= i < p ==> s[i] == ' ',
    decreases p,
{
    if 0 < p && s[p - 1] == ' ' {
        lemma_skip_spaces_bounds(s, p - 1);
    }
}

/// Skipping a word stays within `[0, p]` and passes over non-spaces only.
pub proof fn lemma_skip_word_bounds(s: Seq<char>, p: int)
    requires
        0 <= p <= s.len(),
    ensures
        0 <= skip_word(s, p) <= p,
        forall|i: int| skip_word(s, p) <= i < p ==> s[i] != ' ',
    decreases p,
{
    if 0 < p && s[p - 1] != ' ' {
        lemma_skip_word_bounds(s, p - 1);
    }
}

/// An editable line of text with a cursor.
pub struct LineBuffer {
    /// The characters of the line.
    pub chars: Vec<char>,
    /// Cursor offset, between 0 and the length of the line.
    pub pos: usize,
}

impl LineBuffer {
    /// The characters of the line.
    pub open spec fn text(&self) -> Seq<char> {
        self.chars@
    }

    /// The cursor stays within the line, and the line within its capacity.
    pub open spec fn wf(&self) -> bool {
        &&& self.pos <= self.chars@.len()
        &&& self.chars@.len() < MAX_LINE
    }

    /// An empty line with the cursor at offset 0.
    pub fn new() -> (r: Self)
        ensures
            r.wf(),
            r.text() == Seq::<char>::empty(),
            r.pos == 0,
    {
        LineBuffer { chars: Vec::new(), pos: 0 }
    }

    /// Inserts `c` at the cursor and moves the cursor past it. Refused, leaving
    /// the line as it was, once the line holds `MAX_LINE - 1` characters.
    pub fn insert(&mut self, c: char) -> (r: bool)
        requires
            old(self).wf(),
        ensures
            final(self).wf(),
            r == (old(self).text().len() < MAX_LINE - 1),
            r ==> final(self).text() == old(self).text().insert(old(self).pos as int, c)
                && final(self).pos == old(self).pos + 1,
            !r ==> *final(self) == *old(self),
    {
        if self.chars.len() >= MAX_LINE - 1 {
            return false;
        }
        self.chars.insert(self.pos, c);
        self.pos = self.pos + 1;
        true
    }

    /// Deletes the character under the cursor, if there is one.
    pub fn delete(&mut self) -> (r: bool)
        requires
            old(self).wf(),
        ensures
            final(self).wf(),
            r == (old(self).pos < old(self).text().len()),
            r ==> final(self).text() == old(self).text().remove(old(self).pos as int),
            final(self).pos == old(self).pos,
            !r ==> *final(self) == *old(self),
    {
        if self.pos < self.chars.len() {
            self.chars.remove(self.pos);
            true
        } else {
            false
        }
    }

    /// Deletes the character before the cursor, if there is one, and moves
    /// the cursor back by one.
    pub fn backspace(&mut self) -> (r: bool)
        requires
            old(self).wf(),
        ensures
            final(self).wf(),
            r == (old(self).pos > 0),
            r ==> final(self).text() == old(self).text().remove(old(self).pos - 1)
                && final(self).pos == old(self).pos - 1,
            !r ==> *final(self) == *old(self),
    {
        if self.pos > 0 {
            self.pos = self.pos - 1;
            self.chars.remove(self.pos);
            true
        } else {
            false
        }
    }

    /// Moves the cursor one character left; reports whether it moved.
    pub fn move_left(&mut self) -> (r: bool)
        requires
            old(self).wf(),
        ensures
            final(self).wf(),
            final(self).text() == old(self).text(),
            r == (old(self).pos > 0),
            final(self).pos == if r { old(self).pos - 1 } else { old(self).pos as int },
    {
        if self.pos > 0 {
            self.pos = self.pos - 1;
            true
        } else {
            false
        }
    }

    /// Moves the cursor one character right; reports whether it moved.
    pub fn move_right(&mut self) -> (r: bool)
        requires
            old(self).wf(),
        ensures
            final(self).wf(),
            final(self).text() == old(self).text(),
            r == (old(self).pos < old(self).text().len()),
            final(self).pos == if r { old(self).pos + 1 } else { old(self).pos as int },
    {
        if self.pos < self.chars.len() {
            self.pos = self.pos + 1;
            true
        } else {
            false
        }
    }

    /// Moves the cursor to the start of the line.
    pub fn move_home(&mut self)
        requires
            old(self).wf(),
        ensures
            final(self).wf(),
            final(self).text() == old(self).text(),
            final(self).pos == 0,
    {
        self.pos = 0;
    }

    /// Moves the cursor to the end of the line.
    pub fn move_end(&mut self)
        requires
            old(self).wf(),
        ensures
            final(self).wf(),
            final(self).text() == old(self).text(),
            final(self).pos == old(self).text().len(),
    {
        self.pos = self.chars.len();
    }

    /// Deletes everything from the cursor to the end of the line.
    pub fn delete_to_end(&mut self)
        requires
            old(self).wf(),
        ensures
            final(self).wf(),
            final(self).text() == old(self).text().subrange(0, old(self).pos as int),
            final(self).pos == old(self).pos,
    {
        self.chars.truncate(self.pos);
    }

    /// Deletes backwards from the cursor: first the spaces just before it,
    /// then the word before those. The cursor ends where the removed span began.
    pub fn delete_word(&mut self)
        requires
            old(self).wf(),
        ensures
            final(self).wf(),
            final(self).pos == word_start(old(self).text(), old(self).pos as int),
            final(self).text() == old(self).text().subrange(0, final(self).pos as int)
                + old(self).text().subrange(old(self).pos as int, old(self).text().len() as int),
    {
        let ghost s = self.chars@;
        let ghost p0 = self.pos as int;
        let start = self.pos;
        proof {
            lemma_skip_spaces_bounds(s, p0);
            lemma_skip_word_bounds(s, skip_spaces(s, p0));
        }
        while self.pos > 0 && self.chars[self.pos - 1] == ' '
            invariant
                self.chars@ == s,
                self.pos <= start,
                start == p0,
                p0 <= s.len(),
                skip_spaces(s, self.pos as int) == skip_spaces(s, p0),
            decreases self.pos,
        {
            self.pos = self.pos - 1;
        }
        assert(skip_spaces(s, p0) == self.pos as int);
        while self.pos > 0 && self.chars[self.pos - 1] != ' '
            invariant
                self.chars@ == s,
                self.pos <= start,
                start == p0,
                p0 <= s.len(),
                skip_word(s, self.pos as int) == word_start(s, p0),
            decreases self.pos,
        {
            self.pos = self.pos - 1;
        }
        assert(skip_word(s, self.pos as int) == self.pos as int);
        let mut rest: Vec<char> = Vec::new();
        let mut i: usize = 0;
        while i < self.pos
            invariant
                self.chars@ == s,
                self.pos <= start <= s.len(),
                i <= self.pos,
                rest@ == s.subrange(0, i as int),
            decreases self.pos - i,
        {
            rest.push(self.chars[i]);
            i = i + 1;
        }
        let mut j: usize = start;
        while j < self.chars.len()
            invariant
                self.chars@ == s,
                self.pos <= start <= j <= s.len(),
                rest@ == s.subrange(0, self.pos as int) + s.subrange(start as int, j as int),
            decreases s.len() - j,
        {
            rest.push(self.chars[j]);
            j = j + 1;
            assert(s.subrange(start as int, j as int) == s.subrange(start as int, j - 1) + seq![s[j - 1]]);
        }
        self.chars = rest;
    }

    /// Swaps the two characters around the cursor and moves the cursor right;
    /// at the end of the line, swaps the last two characters instead. Needs the
    /// cursor past the start and at least two characters; reports whether it swapped.
    pub fn transpose(&mut self) -> (r: bool)
        requires
            old(self).wf(),
        ensures
            final(self).wf(),
            r == (old(self).pos > 0 && old(self).text().len() > 1),
            r && old(self).pos == old(self).text().len() ==> final(self).text() == swapped(
                old(self).text(), old(self).pos - 2, old(self).pos - 1)
                && final(self).pos == old(self).pos,
            r && old(self).pos < old(self).text().len() ==> final(self).text() == swapped(
                old(self).text(), old(self).pos - 1, old(self).pos as int)
                && final(self).pos == old(self).pos + 1,
            !r ==> *final(self) == *old(self),
    {
        if self.pos > 0 && self.chars.len() > 1 {
            let (i, j) = if self.pos == self.chars.len() {
                (self.pos - 2, self.pos - 1)
            } else {
                (self.pos - 1, self.pos)
            };
            let a = self.chars[i];
            let b = self.chars[j];
            self.chars.set(i, b);
            self.chars.set(j, a);
            if self.pos < self.chars.len() {
                self.pos = self.pos + 1;
            }
            true
        } else {
            false
        }
    }

    /// Empties the line.
    pub fn clear(&mut self)
        requires
            old(self).wf(),
        ensures
            final(self).wf(),
            final(self).text() == Seq::<char>::empty(),
            final(self).pos == 0,
    {
        self.chars.clear();
        self.pos = 0;
    }

    /// Replaces the whole line by `s`, clipped to the capacity, with the cursor at its end.
    pub fn set(&mut self, s: &str)
        ensures
            final(self).wf(),
            final(self).text() == clipped(s@),
            final(self).pos == final(self).text().len(),
    {
        let mut cs = chars_of(s);
        if cs.len() >= MAX_LINE {
            cs.truncate(MAX_LINE - 1);
        }
        self.pos = cs.len();
        self.chars = cs;
    }

    /// The line as a string.
    pub fn as_string(&self) -> (r: String)
        ensures
            r@ == self.text(),
    {
        string_of(self.chars.as_slice())
    }
}

} // verus!
