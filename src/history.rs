//! The history ring: a bounded, order-preserving list of accepted lines.

use vstd::prelude::*;
use std::collections::VecDeque;

verus! {

/// Number of entries a new history keeps.
pub const DEFAULT_HISTORY_MAX_LEN: usize = 100;

/// Whether `line` is taken into a history holding `lines` with bound `max_len`:
/// it is not empty and differs from the newest entry.
pub open spec fn accepts(lines: Seq<Seq<char>>, max_len: nat, line: Seq<char>) -> bool {
    &&& max_len > 0
    &&& line.len() > 0
    &&& (lines.len() == 0 || lines.last() != line)
}

/// The entries after adding `line`: the oldest one leaves when the ring is full.
pub open spec fn added(lines: Seq<Seq<char>>, max_len: nat, line: Seq<char>) -> Seq<Seq<char>> {
    if !accepts(lines, max_len, line) {
        lines
    } else if lines.len() >= max_len {
        lines.drop_first().push(line)
    } else {
        lines.push(line)
    }
}

/// The newest `n` entries of `lines`.
pub open spec fn newest(lines: Seq<Seq<char>>, n: nat) -> Seq<Seq<char>> {
    if lines.len() > n {
        lines.subrange(lines.len() - n, lines.len() as int)
    } else {
        lines
    }
}

/// No two neighbouring entries are equal.
pub open spec fn no_adjacent_repeats(lines: Seq<Seq<char>>) -> bool {
    forall|i: int| 0 < i < lines.len() ==> lines[i - 1] != #[trigger] lines[i]
}

/// Adding the same line twice in a row keeps one copy: the second add
/// changes nothing.
pub proof fn lemma_add_twice(lines: Seq<Seq<char>>, max_len: nat, line: Seq<char>)
    ensures
        added(added(lines, max_len, line), max_len, line) == added(lines, max_len, line),
{
}

/// Adding a new line to a full history drops the oldest entry and keeps the
/// others in order, so the length stays at the bound.
pub proof fn lemma_add_when_full(lines: Seq<Seq<char>>, max_len: nat, line: Seq<char>)
    requires
        lines.len() == max_len,
        accepts(lines, max_len, line),
    ensures
        added(lines, max_len, line) == lines.subrange(1, lines.len() as int).push(line),
        added(lines, max_len, line).len() == max_len,
{
    assert(lines.drop_first() == lines.subrange(1, lines.len() as int));
}

/// A history never grows past its bound by adding.
pub proof fn lemma_add_bounded(lines: Seq<Seq<char>>, max_len: nat, line: Seq<char>)
    requires
        lines.len() <= max_len,
    ensures
        added(lines, max_len, line).len() <= max_len,
{
}

/// Previously accepted lines, oldest first.
pub struct History {
    /// Most entries kept.
    pub max_len: usize,
    /// The entries, oldest first.
    pub entries: VecDeque<String>,
}

impl History {
    /// The entries as character sequences, oldest first.
    pub open spec fn lines(&self) -> Seq<Seq<char>> {
        self.entries@.map_values(|s: String| s@)
    }

    pub open spec fn wf(&self) -> bool {
        &&& self.max_len >= 1
        &&& self.entries@.len() <= self.max_len
        &&& no_adjacent_repeats(self.lines())
    }

    /// An empty history that keeps up to `DEFAULT_HISTORY_MAX_LEN` entries.
    pub fn new() -> (r: Self)
        ensures
            r.wf(),
            r.lines() == Seq::<Seq<char>>::empty(),
            r.max_len == DEFAULT_HISTORY_MAX_LEN,
    {
        let r = History { max_len: DEFAULT_HISTORY_MAX_LEN, entries: VecDeque::new() };
        assert(r.lines() =~= Seq::<Seq<char>>::empty());
        r
    }

    /// Number of entries.
    pub fn len(&self) -> (r: usize)
        ensures
            r == self.lines().len(),
    {
        self.entries.len()
    }

    /// Adds `line` as the newest entry, unless it is empty or repeats the
    /// newest entry. When the ring is full the oldest entry leaves first.
    pub fn add(&mut self, line: &str) -> (r: bool)
        requires
            old(self).wf(),
        ensures
            final(self).wf(),
            r == accepts(old(self).lines(), old(self).max_len as nat, line@),
            final(self).lines() == added(old(self).lines(), old(self).max_len as nat, line@),
            final(self).max_len == old(self).max_len,
    {
        let ghost before = self.lines();
        if self.max_len == 0 || line.is_empty() {
            return false;
        }
        let owned = line.to_owned();
        let n = self.entries.len();
        if n > 0 {
            let last: &String = &self.entries[n - 1];
            if *last == owned {
                assert(before.last() == line@);
                return false;
            }
        }
        let ghost kept = if before.len() >= self.max_len { before.drop_first() } else { before };
        if n >= self.max_len {
            self.entries.pop_front();
            assert(self.lines() =~= kept);
        }
        let ghost mid = self.lines();
        self.entries.push_back(owned);
        assert(self.lines() =~= mid.push(line@));
        assert(self.lines() == added(before, self.max_len as nat, line@));
        proof {
            let l = self.lines();
            assert forall|i: int| 0 < i < l.len() implies l[i - 1] != #[trigger] l[i] by {
                if i < l.len() - 1 {
                    if before.len() >= self.max_len {
                        assert(l[i - 1] == before[i]);
                        assert(l[i] == before[i + 1]);
                    } else {
                        assert(l[i] == before[i]);
                    }
                }
            }
        }
        true
    }

    /// The `index`-th most recent entry: 1 is the newest. `None` for 0 and
    /// for an index past the oldest entry.
    pub fn get(&self, index: usize) -> (r: Option<&str>)
        ensures
            r is Some <==> 1 <= index <= self.lines().len(),
            r is Some ==> r->0@ == self.lines()[self.lines().len() - index],
    {
        let n = self.entries.len();
        if index >= 1 && index <= n {
            Some(self.entries[n - index].as_str())
        } else {
            None
        }
    }

    /// Sets the bound to `len`, keeping only the newest `len` entries.
    /// Refused, with nothing changed, when `len` is 0.
    pub fn set_max_len(&mut self, len: usize) -> (r: bool)
        requires
            old(self).wf(),
        ensures
            final(self).wf(),
            r == (len >= 1),
            r ==> final(self).max_len == len
                && final(self).lines() == newest(old(self).lines(), len as nat),
            !r ==> *final(self) == *old(self),
    {
        if len < 1 {
            return false;
        }
        let ghost before = self.lines();
        self.max_len = len;
        while self.entries.len() > len
            invariant
                self.max_len == len,
                len >= 1,
                before.len() >= self.entries@.len(),
                self.entries@.len() >= len || self.entries@.len() == before.len(),
                self.lines() == before.subrange(before.len() - self.entries@.len(), before.len() as int),
            decreases self.entries@.len(),
        {
            let ghost cur = self.lines();
            self.entries.pop_front();
            assert(self.lines() =~= cur.drop_first());
        }
        proof {
            if before.len() <= len as nat {
                assert(self.lines() =~= before);
            }
        }
        assert(self.lines() =~= newest(before, len as nat));
        proof {
            let l = self.lines();
            let d = before.len() - l.len();
            assert forall|i: int| 0 < i < l.len() implies l[i - 1] != #[trigger] l[i] by {
                assert(l[i - 1] == before[d + i - 1]);
                assert(l[i] == before[d + i]);
            }
        }
        true
    }
}

} // verus!
