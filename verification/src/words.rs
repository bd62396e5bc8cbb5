//! Words and the backslash escapes inside them.

use vstd::prelude::*;
use crate::chars::{is_hex, is_unescapable, is_word_delimiter, BACKSLASH, SPACE};

verus! {

/// The number of consecutive hexadecimal digits of `s` that start at `from`,
/// counted up to `limit`.
pub open spec fn hex_run(s: Seq<u8>, from: int, limit: nat) -> nat
    decreases limit,
{
    if limit > 0 && 0 <= from < s.len() && is_hex(s[from]) {
        1 + hex_run(s, from + 1, (limit - 1) as nat)
    } else {
        0
    }
}

/// The index of the last byte of the escape whose backslash stands at `at`.
///
/// A backslash before a hexadecimal digit starts a code point escape: it
/// takes up to six digits, and one space after fewer than six. Before any
/// other byte, a control byte included, the escape is that one byte.
pub open spec fn escape_last(s: Seq<u8>, at: int) -> int
    recommends
        0 <= at,
        at + 1 < s.len(),
{
    if is_hex(s[at + 1]) {
        let digits = hex_run(s, at + 1, 6);
        if digits < 6 && at + digits + 1 < s.len() && s[at + digits + 1] == SPACE {
            at + digits + 1
        } else {
            at + digits
        }
    } else {
        at + 1
    }
}

/// The index just past the word that is scanned from `from`: that of the
/// first delimiter which no escape covers, or the buffer's length. `None`
/// where the scan meets a backslash that is the buffer's last byte.
pub open spec fn word_end(s: Seq<u8>, from: int) -> Option<int>
    decreases s.len() - from,
    via word_end_decreases
{
    if from < 0 || from >= s.len() {
        Some(from)
    } else if is_word_delimiter(s[from]) {
        Some(from)
    } else if s[from] == BACKSLASH {
        if from + 1 >= s.len() {
            None
        } else {
            word_end(s, escape_last(s, from) + 1)
        }
    } else {
        word_end(s, from + 1)
    }
}

#[via_fn]
proof fn word_end_decreases(s: Seq<u8>, from: int) {
    if 0 <= from && from + 1 < s.len() {
        lemma_escape_last_bounds(s, from);
    }
}

/// A run of hexadecimal digits is no longer than its limit and stays inside
/// the buffer.
pub proof fn lemma_hex_run_bounds(s: Seq<u8>, from: int, limit: nat)
    requires
        0 <= from,
    ensures
        hex_run(s, from, limit) <= limit,
        from + hex_run(s, from, limit) <= s.len() || hex_run(s, from, limit) == 0,
    decreases limit,
{
    if limit > 0 && from < s.len() && is_hex(s[from]) {
        lemma_hex_run_bounds(s, from + 1, (limit - 1) as nat);
    }
}

/// An escape ends after its backslash and inside the buffer.
pub proof fn lemma_escape_last_bounds(s: Seq<u8>, at: int)
    requires
        0 <= at,
        at + 1 < s.len(),
    ensures
        at < escape_last(s, at) < s.len(),
        escape_last(s, at) <= at + 7,
{
    lemma_hex_run_bounds(s, at + 1, 6);
}

/// A word that is scanned from inside the buffer ends at or after the place
/// where the scan began, and inside the buffer or at its end.
pub proof fn lemma_word_end_bounds(s: Seq<u8>, from: int)
    requires
        0 <= from <= s.len(),
    ensures
        word_end(s, from) matches Some(e) ==> from <= e <= s.len(),
        word_end(s, from) matches Some(e) ==> (from < s.len() && !is_word_delimiter(s[from])
            ==> from < e),
    decreases s.len() - from,
{
    if from < s.len() && !is_word_delimiter(s[from]) {
        if s[from] == BACKSLASH {
            if from + 1 < s.len() {
                lemma_escape_last_bounds(s, from);
                lemma_word_end_bounds(s, escape_last(s, from) + 1);
            }
        } else {
            lemma_word_end_bounds(s, from + 1);
        }
    }
}

/// Scans the escape whose backslash stands at `start` and returns the index
/// of its last byte.
///
/// A control byte after the backslash is taken as it is, hexadecimal digits
/// make a code point escape, and any other byte is the escaped byte.
pub fn consume_escape(css: &[u8], start: usize) -> (last: usize)
    requires
        start + 1 < css@.len(),
    ensures
        last == escape_last(css@, start as int),
        start < last < css@.len(),
{
    proof {
        lemma_escape_last_bounds(css@, start as int);
    }
    let length: usize = css.len();
    let mut next: usize = start;
    let code = css[start + 1];
    if is_unescapable(code) {
        next += 1;
    } else if is_hex(code) {
        let mut hex_digits: usize = 0;
        while hex_digits < 6 && next + 1 < css.len() && is_hex(css[next + 1])
            invariant
                start + 1 < css@.len() <= usize::MAX,
                hex_digits <= 6,
                next == start + hex_digits,
                next < css@.len(),
                hex_run(css@, start + 1, 6) == hex_digits + hex_run(
                    css@,
                    next + 1,
                    (6 - hex_digits) as nat,
                ),
            decreases 6 - hex_digits,
        {
            next += 1;
            hex_digits += 1;
        }
        if hex_digits < 6 && next + 1 < css.len() && css[next + 1] == SPACE {
            next += 1;
        }
    } else {
        next += 1;
    }
    next
}

/// Scans the word that begins at `start` and returns the index of its last
/// byte.
///
/// The word runs up to the first delimiter that no escape covers, or to the
/// end of the buffer. The result is `None` exactly where the scan meets a
/// backslash that is the buffer's last byte: an escape with nothing to
/// escape.
pub fn consume_word(css: &[u8], start: usize) -> (last: Option<usize>)
    requires
        start < css@.len(),
        !is_word_delimiter(css@[start as int]),
    ensures
        match last {
            Some(l) => word_end(css@, start as int) == Some(l + 1) && start <= l < css@.len(),
            None => word_end(css@, start as int).is_none(),
        },
{
    let length: usize = css.len();
    let mut next: usize = start;
    while next < length
        invariant
            length == css@.len(),
            start <= next <= length,
            word_end(css@, next as int) == word_end(css@, start as int),
            next == start ==> !is_word_delimiter(css@[start as int]),
        decreases css@.len() - next,
    {
        let code = css[next];
        if is_word_delimiter(code) {
            return Some(next - 1);
        } else if code == BACKSLASH {
            if next + 1 >= length {
                return None;
            }
            proof {
                lemma_escape_last_bounds(css@, next as int);
            }
            next = consume_escape(css, next) + 1;
        } else {
            next += 1;
        }
    }
    Some(next - 1)
}

} // verus!
