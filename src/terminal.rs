//! The decisions of the terminal layer that need no terminal: reading the
//! cursor-position report, the fallback width, recognising terminals that
//! cannot take escape sequences, and trimming a line read in cooked mode.

use vstd::prelude::*;
use crate::text::{chars_of, string_of};

verus! {

/// Width assumed when the terminal does not tell.
pub const DEFAULT_COLUMNS: usize = 80;

/// Terminals that do not understand the escape sequences this editor writes.
pub open spec fn unsupported_names() -> Seq<Seq<char>> {
    seq![seq!['d', 'u', 'm', 'b'], seq!['c', 'o', 'n', 's', '2', '5'], seq!['e', 'm', 'a', 'c', 's']]
}

/// ASCII letters in lower case; every other character as it is.
pub open spec fn ascii_lower(c: char) -> char {
    if 'A' <= c <= 'Z' {
        (((c as u32) + 32) as u8) as char
    } else {
        c
    }
}

/// Equal but for the case of ASCII letters.
pub open spec fn eq_ignore_ascii_case(a: Seq<char>, b: Seq<char>) -> bool {
    a.len() == b.len() && forall|i: int| 0 <= i < a.len() ==> ascii_lower(a[i]) == ascii_lower(#[trigger] b[i])
}

fn lower(c: char) -> (r: char)
    ensures
        r == ascii_lower(c),
{
    if 'A' <= c && c <= 'Z' {
        ((c as u8) + 32) as char
    } else {
        c
    }
}

fn same_ignoring_case(a: &Vec<char>, b: &str) -> (r: bool)
    ensures
        r == eq_ignore_ascii_case(a@, b@),
{
    let bc = chars_of(b);
    if a.len() != bc.len() {
        return false;
    }
    let mut i: usize = 0;
    while i < a.len()
        invariant
            a@.len() == bc@.len(),
            bc@ == b@,
            i <= a@.len(),
            forall|k: int| 0 <= k < i ==> ascii_lower(a@[k]) == ascii_lower(#[trigger] bc@[k]),
        decreases a@.len() - i,
    {
        if lower(a[i]) != lower(bc[i]) {
            return false;
        }
        i = i + 1;
    }
    true
}

/// Whether the terminal named `term` is one known not to take escape
/// sequences, in any letter case.
pub fn is_unsupported_term(term: &str) -> (r: bool)
    ensures
        r == exists|i: int| 0 <= i < unsupported_names().len()
            && eq_ignore_ascii_case(term@, #[trigger] unsupported_names()[i]),
{
    let t = chars_of(term);
    proof {
        reveal_strlit("dumb");
        reveal_strlit("cons25");
        reveal_strlit("emacs");
        assert(unsupported_names()[0] == "dumb"@);
        assert(unsupported_names()[1] == "cons25"@);
        assert(unsupported_names()[2] == "emacs"@);
    }
    let r = same_ignoring_case(&t, "dumb") || same_ignoring_case(&t, "cons25")
        || same_ignoring_case(&t, "emacs");
    proof {
        if !r {
            assert forall|i: int| 0 <= i < unsupported_names().len()
                implies !eq_ignore_ascii_case(term@, #[trigger] unsupported_names()[i]) by {
                if i == 0 {
                } else if i == 1 {
                } else {
                }
            }
        }
    }
    r
}

/// The value of a run of ASCII digits, most significant first.
pub open spec fn digits_value(s: Seq<u8>) -> nat
    decreases s.len(),
{
    if s.len() == 0 {
        0
    } else {
        digits_value(s.drop_last()) * 10 + (s.last() - 48) as nat
    }
}

/// Every byte is an ASCII digit.
pub open spec fn all_digits(s: Seq<u8>) -> bool {
    forall|i: int| 0 <= i < s.len() ==> 48 <= #[trigger] s[i] <= 57
}

/// A number in the form `str::parse::<usize>` accepts: an optional `+`, then
/// one or more digits, of a value that fits in `usize`.
pub open spec fn parsed_number(s: Seq<u8>) -> Option<nat> {
    let body = if s.len() > 0 && s[0] == 43 { s.drop_first() } else { s };
    if body.len() > 0 && all_digits(body) && digits_value(body) <= usize::MAX {
        Some(digits_value(body))
    } else {
        None
    }
}

proof fn lemma_digits_value_grows(s: Seq<u8>, i: int)
    requires
        0 <= i <= s.len(),
        all_digits(s),
    ensures
        digits_value(s.subrange(0, i)) <= digits_value(s),
    decreases s.len() - i,
{
    if i < s.len() {
        lemma_digits_value_grows(s, i + 1);
        assert(s.subrange(0, i + 1).drop_last() == s.subrange(0, i));
    } else {
        assert(s.subrange(0, i) == s);
    }
}

/// Reads a number as `parsed_number` describes, from `s[from..to]`.
fn parse_number(s: &[u8], from: usize, to: usize) -> (r: Option<usize>)
    requires
        from <= to <= s@.len(),
    ensures
        r is Some <==> parsed_number(s@.subrange(from as int, to as int)) is Some,
        r is Some ==> r->0 as nat == parsed_number(s@.subrange(from as int, to as int))->0,
{
    let ghost whole = s@.subrange(from as int, to as int);
    let mut start = from;
    if start < to && s[start] == 43 {
        start = start + 1;
    }
    let ghost body = s@.subrange(start as int, to as int);
    assert(body == if whole.len() > 0 && whole[0] == 43 { whole.drop_first() } else { whole });
    if start == to {
        return None;
    }
    let mut acc: usize = 0;
    let mut i: usize = start;
    while i < to
        invariant
            from <= start <= i <= to <= s@.len(),
            start < to,
            body == s@.subrange(start as int, to as int),
            whole == s@.subrange(from as int, to as int),
            body == if whole.len() > 0 && whole[0] == 43 { whole.drop_first() } else { whole },
            all_digits(s@.subrange(start as int, i as int)),
            acc as nat == digits_value(s@.subrange(start as int, i as int)),
        decreases to - i,
    {
        let b = s[i];
        let ghost prefix = s@.subrange(start as int, i as int);
        assert(s@.subrange(start as int, i + 1).drop_last() == prefix);
        if b < 48 || b > 57 {
            assert(!all_digits(body)) by {
                assert(body[i - start] == b);
            }
            return None;
        }
        let d = (b - 48) as usize;
        if acc > (usize::MAX - d) / 10 {
            proof {
                assert(acc * 10 + d > usize::MAX) by (nonlinear_arith)
                    requires acc > (usize::MAX - d) / 10, d <= 9;
                assert(all_digits(s@.subrange(start as int, i + 1)));
                if all_digits(body) {
                    assert(s@.subrange(start as int, i + 1) == body.subrange(0, i + 1 - start));
                    lemma_digits_value_grows(body, i + 1 - start);
                }
            }
            return None;
        }
        proof {
            assert(acc * 10 + d <= usize::MAX) by (nonlinear_arith)
                requires acc <= (usize::MAX - d) / 10, d <= 9;
        }
        acc = acc * 10 + d;
        i = i + 1;
    }
    Some(acc)
}

/// `at` is the position of the first `;` in `s`.
pub open spec fn first_semicolon(s: Seq<u8>, at: int) -> bool {
    s[at] == 59 && forall|k: int| 0 <= k < at ==> s[k] != 59
}

/// The frame of a cursor-position report: `ESC [` first and `R` last.
pub open spec fn framed_reply(reply: Seq<u8>) -> bool {
    reply.len() >= 3 && reply[0] == 0x1b && reply[1] == 0x5b && reply.last() == 0x52
}

/// Row and column from a cursor-position report `ESC [ row ; col R`, given
/// the bytes read up to and including the `R` (or as many as were read): the
/// two numbers are what stands between `ESC [` and `R`, split at the first
/// `;`. `None` when the frame is missing or that is not two numbers.
pub fn parse_cursor_reply(reply: &[u8]) -> (r: Option<(usize, usize)>)
    ensures
        ({
            let body = reply@.subrange(2, reply@.len() - 1);
            r is Some <==> framed_reply(reply@) && exists|at: int| 0 <= at < body.len() && first_semicolon(body, at)
                && parsed_number(body.subrange(0, at)) is Some
                && parsed_number(body.subrange(at + 1, body.len() as int)) is Some
        }),
        r is Some ==> {
            let body = reply@.subrange(2, reply@.len() - 1);
            exists|at: int| 0 <= at < body.len() && #[trigger] first_semicolon(body, at)
                && (r->0).0 as nat == parsed_number(body.subrange(0, at))->0
                && (r->0).1 as nat == parsed_number(body.subrange(at + 1, body.len() as int))->0
        },
{
    let n = reply.len();
    if n < 3 || reply[0] != 0x1b || reply[1] != 0x5b || reply[n - 1] != 0x52 {
        return None;
    }
    let end = n - 1;
    let ghost body = reply@.subrange(2, end as int);
    let mut at: usize = 2;
    while at < end && reply[at] != 59
        invariant
            2 <= at <= end,
            end == reply@.len() - 1,
            body == reply@.subrange(2, end as int),
            forall|k: int| 0 <= k < at - 2 ==> body[k] != 59,
        decreases end - at,
    {
        at = at + 1;
    }
    if at == end {
        assert forall|a: int| 0 <= a < body.len() implies !first_semicolon(body, a) by {
            assert(body[a] != 59);
        }
        return None;
    }
    let ghost k = at - 2;
    assert(first_semicolon(body, k));
    assert(body.subrange(0, k) == reply@.subrange(2, at as int));
    assert(body.subrange(k + 1, body.len() as int) == reply@.subrange(at + 1, end as int));
    assert forall|a: int| 0 <= a < body.len() && first_semicolon(body, a) implies a == k by {
        if a < k {
            assert(body[a] != 59);
        } else if a > k {
            assert(body[k] != 59);
        }
    }
    let rows = parse_number(reply, 2, at);
    let cols = parse_number(reply, at + 1, end);
    match (rows, cols) {
        (Some(rw), Some(cl)) => Some((rw, cl)),
        _ => None,
    }
}

/// The width to draw on: what the window-size query gave when it gave a
/// nonzero width, else what the cursor probe found, else `DEFAULT_COLUMNS`.
pub fn choose_columns(queried: Option<usize>, probed: Option<usize>) -> (r: usize)
    ensures
        r == match (queried, probed) {
            (Some(q), _) if q != 0 => q,
            (_, Some(p)) => p,
            _ => DEFAULT_COLUMNS,
        },
{
    match queried {
        Some(q) if q != 0 => q,
        _ => match probed {
            Some(p) => p,
            None => DEFAULT_COLUMNS,
        },
    }
}

/// `s` without one trailing newline, and without the carriage return before
/// it: the line as typed in cooked mode.
pub open spec fn without_line_end(s: Seq<char>) -> Seq<char> {
    if s.len() > 0 && s.last() == '\n' {
        let t = s.drop_last();
        if t.len() > 0 && t.last() == '\r' {
            t.drop_last()
        } else {
            t
        }
    } else {
        s
    }
}

/// Removes the line end from a line read in cooked mode.
pub fn strip_line_end(line: &str) -> (r: String)
    ensures
        r@ == without_line_end(line@),
{
    let mut cs = chars_of(line);
    let n = cs.len();
    if n > 0 && cs[n - 1] == '\n' {
        cs.pop();
        let m = cs.len();
        if m > 0 && cs[m - 1] == '\r' {
            cs.pop();
        }
    }
    string_of(cs.as_slice())
}

} // verus!
