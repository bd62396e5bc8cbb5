//! The mathematical model of the token stream.
//!
//! A buffer is a `Seq<u8>`, the scanner's state a `Cursor`, and the stream
//! that the scanner owes for a buffer is `tokenization`. The executable
//! scanner is proved to return exactly that stream.

use vstd::prelude::*;
use crate::chars::{
    is_combinator, is_quote, is_single, is_whitespace, TokenType, ASTERISK, BACKSLASH, NEWLINE,
    SLASH,
};
use crate::search::{first_occurrence, lemma_first_occurrence};
use crate::util::decimal;
use crate::words::{lemma_word_end_bounds, word_end};

verus! {

/// Why a buffer has no token stream.
#[derive(Copy, Clone, Debug, PartialEq, Eq, Structural)]
pub enum ErrorKind {
    /// A quote has no closing quote of its kind that is not escaped.
    UnclosedQuote,
    /// A `/*` has no `*/` after it.
    UnclosedComment,
    /// A backslash is the buffer's last byte.
    MalformedEscape,
}

/// A token as the model sees it: a category with its line range, its column
/// range and its half-open byte range.
pub struct TokenModel {
    pub ty: TokenType,
    pub line: (int, int),
    pub col: (int, int),
    pub pos: (int, int),
}

/// A failure as the model sees it: what went wrong, and the line, column and
/// byte offset at which it did.
pub struct Failure {
    pub kind: ErrorKind,
    pub line: int,
    pub column: int,
    pub offset: int,
}

impl ErrorKind {
    /// What went wrong, in words.
    pub open spec fn text(self) -> Seq<char> {
        match self {
            ErrorKind::UnclosedQuote => "Unclosed quote"@,
            ErrorKind::UnclosedComment => "Unclosed comment"@,
            ErrorKind::MalformedEscape => "Malformed escape"@,
        }
    }
}

impl Failure {
    /// The failure as a message: what went wrong, a full stop, and the
    /// line, the column and the byte offset in decimal digits, with one
    /// space between them.
    pub open spec fn message(self) -> Seq<char>
        recommends
            0 <= self.line,
            0 <= self.column,
            0 <= self.offset,
    {
        self.kind.text() + ". "@ + decimal(self.line as nat) + " "@ + decimal(self.column as nat)
            + " "@ + decimal(self.offset as nat)
    }
}

/// The scanner's state: the byte offset of the next token, the number of
/// line feeds counted so far, and the offset from which columns on the
/// current line are counted.
pub struct Cursor {
    pub start: int,
    pub line: int,
    pub offset: int,
}

impl Cursor {
    /// The state before the first byte.
    pub open spec fn initial() -> Cursor {
        Cursor { start: 0, line: 0, offset: 0 }
    }

    /// The cursor lies inside the buffer or at its end, its line start does
    /// not lie after it, and it has counted no more lines than bytes passed.
    pub open spec fn wf(self, s: Seq<u8>) -> bool {
        &&& 0 <= self.offset <= self.start <= s.len()
        &&& 0 <= self.line <= self.start
    }

    /// The column of the cursor: its distance from the line start.
    pub open spec fn column(self) -> int {
        self.start - self.offset
    }

    /// The failure of the given kind at the cursor.
    pub open spec fn failure(self, kind: ErrorKind) -> Failure {
        Failure { kind, line: self.line, column: self.column(), offset: self.start }
    }
}

/// The two bytes that close a comment.
pub open spec fn comment_close() -> Seq<u8> {
    seq![ASTERISK, SLASH]
}

/// The index just past the run of whitespace that holds `from`.
pub open spec fn space_run_end(s: Seq<u8>, from: int) -> int
    decreases s.len() - from,
{
    if 0 <= from < s.len() && is_whitespace(s[from]) {
        space_run_end(s, from + 1)
    } else {
        from
    }
}

/// The index just past the run of combinator bytes that holds `from`.
pub open spec fn combinator_run_end(s: Seq<u8>, from: int) -> int
    decreases s.len() - from,
{
    if 0 <= from < s.len() && is_combinator(s[from]) {
        combinator_run_end(s, from + 1)
    } else {
        from
    }
}

/// The number of line feeds among the bytes of `s` in `[from, to)`.
pub open spec fn newlines(s: Seq<u8>, from: int, to: int) -> int
    decreases to - from,
{
    if from >= to {
        0
    } else {
        newlines(s, from, to - 1) + if s[to - 1] == NEWLINE {
            1int
        } else {
            0int
        }
    }
}

/// The index of the last line feed among the bytes of `s` in `[from, to)`.
pub open spec fn last_newline(s: Seq<u8>, from: int, to: int) -> Option<int>
    decreases to - from,
{
    if from >= to {
        None
    } else if s[to - 1] == NEWLINE {
        Some(to - 1)
    } else {
        last_newline(s, from, to - 1)
    }
}

/// The number of backslashes that stand in a row directly before `at`.
pub open spec fn backslashes_before(s: Seq<u8>, at: int) -> nat
    decreases at,
{
    if 0 < at <= s.len() && s[at - 1] == BACKSLASH {
        1 + backslashes_before(s, at - 1)
    } else {
        0
    }
}

/// The index of the quote that closes a string: the first `quote` at or
/// after `from` with an even number of backslashes directly before it.
pub open spec fn closing_quote(s: Seq<u8>, from: int, quote: u8) -> Option<int>
    decreases s.len() - from,
{
    if from < 0 || from >= s.len() {
        None
    } else if s[from] == quote && backslashes_before(s, from) % 2 == 0 {
        Some(from)
    } else {
        closing_quote(s, from + 1, quote)
    }
}

/// A token on one line, with the same column at both ends.
pub open spec fn flat_token(ty: TokenType, c: Cursor, end: int) -> (TokenModel, Cursor) {
    (
        TokenModel {
            ty,
            line: (c.line, c.line),
            col: (c.column(), c.column()),
            pos: (c.start, end),
        },
        Cursor { start: end, line: c.line, offset: c.offset },
    )
}

/// The whitespace run at the cursor as one `Space` token.
///
/// Every line feed of the run counts one line and moves the line start to
/// its own index. The token begins on the line and column that hold after
/// its first byte was counted, and ends on the column of the run's last
/// byte.
pub open spec fn space_token(s: Seq<u8>, c: Cursor) -> (TokenModel, Cursor) {
    let end = space_run_end(s, c.start);
    let first = if s[c.start] == NEWLINE {
        Cursor { start: c.start, line: c.line + 1, offset: c.start }
    } else {
        c
    };
    let end_line = c.line + newlines(s, c.start, end);
    let end_offset = match last_newline(s, c.start, end) {
        Some(i) => i,
        None => c.offset,
    };
    (
        TokenModel {
            ty: TokenType::Space,
            line: (first.line, end_line),
            col: (first.column(), end - end_offset - 1),
            pos: (c.start, end),
        },
        Cursor { start: end, line: end_line, offset: end_offset },
    )
}

/// The comment at the cursor that closes at `close`, the index of its `*/`.
///
/// Every line feed inside counts one line, and the line start moves just
/// past the last of them. The token ends on the column of its last byte.
pub open spec fn comment_token(s: Seq<u8>, c: Cursor, close: int) -> (TokenModel, Cursor) {
    let end = close + 2;
    let end_line = c.line + newlines(s, c.start, end);
    let end_offset = match last_newline(s, c.start, end) {
        Some(i) => i + 1,
        None => c.offset,
    };
    (
        TokenModel {
            ty: TokenType::Comment,
            line: (c.line, end_line),
            col: (c.column(), end - 1 - end_offset),
            pos: (c.start, end),
        },
        Cursor { start: end, line: end_line, offset: end_offset },
    )
}

/// The word at the cursor that ends just before `end`. It ends on the
/// column of its last byte.
pub open spec fn word_token(c: Cursor, end: int) -> (TokenModel, Cursor) {
    (
        TokenModel {
            ty: TokenType::Word,
            line: (c.line, c.line),
            col: (c.column(), end - 1 - c.offset),
            pos: (c.start, end),
        },
        Cursor { start: end, line: c.line, offset: c.offset },
    )
}

/// The failure of a word that began at the cursor and ran into a backslash
/// with nothing after it: it lies at that backslash, the buffer's last byte.
pub open spec fn escape_failure(s: Seq<u8>, c: Cursor) -> Failure {
    Failure {
        kind: ErrorKind::MalformedEscape,
        line: c.line,
        column: s.len() - 1 - c.offset,
        offset: s.len() - 1,
    }
}

/// Whether a comment opens at `at`.
pub open spec fn comment_opens(s: Seq<u8>, at: int) -> bool {
    0 <= at && at + 1 < s.len() && s[at] == SLASH && s[at + 1] == ASTERISK
}

/// The token at the cursor and the state after it, or the failure.
///
/// The byte at the cursor decides, in this order: whitespace makes a
/// `Space` run; a combinator byte a `Combinator` run; a punctuation byte a
/// token of its own; a quote a string up to its closing quote, under the
/// category `SingleQuote` for either quote; `/*` a comment up to `*/`; any
/// other slash a `Slash`; everything else a word.
pub open spec fn scan_token(s: Seq<u8>, c: Cursor) -> Result<(TokenModel, Cursor), Failure>
    recommends
        0 <= c.start < s.len(),
{
    let b = s[c.start];
    if is_whitespace(b) {
        Ok(space_token(s, c))
    } else if is_combinator(b) {
        Ok(flat_token(TokenType::Combinator, c, combinator_run_end(s, c.start)))
    } else if is_single(b) {
        Ok(flat_token(TokenType::of_byte(b).unwrap(), c, c.start + 1))
    } else if is_quote(b) {
        match closing_quote(s, c.start + 1, b) {
            Some(i) => Ok(flat_token(TokenType::SingleQuote, c, i + 1)),
            None => Err(c.failure(ErrorKind::UnclosedQuote)),
        }
    } else if comment_opens(s, c.start) {
        match first_occurrence(s, c.start + 2, comment_close()) {
            Some(close) => Ok(comment_token(s, c, close)),
            None => Err(c.failure(ErrorKind::UnclosedComment)),
        }
    } else if b == SLASH {
        Ok(flat_token(TokenType::Slash, c, c.start + 1))
    } else {
        match word_end(s, c.start) {
            Some(end) => Ok(word_token(c, end)),
            None => Err(escape_failure(s, c)),
        }
    }
}

/// The tokens from the cursor to the end of the buffer, or the first
/// failure on the way.
pub open spec fn tokens_from(s: Seq<u8>, c: Cursor) -> Result<Seq<TokenModel>, Failure>
    decreases s.len() - c.start,
    via tokens_from_decreases
{
    if c.start < 0 || c.start >= s.len() {
        Ok(Seq::empty())
    } else {
        match scan_token(s, c) {
            Err(e) => Err(e),
            Ok((t, next)) => match tokens_from(s, next) {
                Err(e) => Err(e),
                Ok(rest) => Ok(seq![t] + rest),
            },
        }
    }
}

#[via_fn]
proof fn tokens_from_decreases(s: Seq<u8>, c: Cursor) {
    if 0 <= c.start < s.len() {
        lemma_scan_advances(s, c);
    }
}

/// The state in which the scan from the cursor stops: the end of the
/// buffer, or the cursor of the token that fails.
pub open spec fn last_cursor(s: Seq<u8>, c: Cursor) -> Cursor
    decreases s.len() - c.start,
    via last_cursor_decreases
{
    if c.start < 0 || c.start >= s.len() {
        c
    } else {
        match scan_token(s, c) {
            Err(_) => c,
            Ok((_, next)) => last_cursor(s, next),
        }
    }
}

#[via_fn]
proof fn last_cursor_decreases(s: Seq<u8>, c: Cursor) {
    if 0 <= c.start < s.len() {
        lemma_scan_advances(s, c);
    }
}

/// A stream that was scanned so far, followed by what the rest of the
/// buffer gives.
pub open spec fn followed_by(
    prefix: Seq<TokenModel>,
    rest: Result<Seq<TokenModel>, Failure>,
) -> Result<Seq<TokenModel>, Failure> {
    match rest {
        Ok(r) => Ok(prefix + r),
        Err(e) => Err(e),
    }
}

/// The tokens take at least one byte each, lie end to end, begin at `from`
/// and end at `to`.
pub open spec fn contiguous(toks: Seq<TokenModel>, from: int, to: int) -> bool {
    &&& forall|i: int| 0 <= i < toks.len() ==> (#[trigger] toks[i]).pos.0 < toks[i].pos.1
    &&& forall|i: int| 0 <= i < toks.len() - 1 ==> (#[trigger] toks[i + 1]).pos.0 == toks[i].pos.1
    &&& if toks.len() == 0 {
        from == to
    } else {
        toks[0].pos.0 == from && toks[toks.len() - 1].pos.1 == to
    }
}

/// The bytes that the tokens designate in `s`, one token after the other.
pub open spec fn lexemes(s: Seq<u8>, toks: Seq<TokenModel>) -> Seq<u8>
    decreases toks.len(),
{
    if toks.len() == 0 {
        Seq::empty()
    } else {
        s.subrange(toks[0].pos.0, toks[0].pos.1) + lexemes(s, toks.drop_first())
    }
}

/// The token stream of a whole buffer.
pub open spec fn tokenization(s: Seq<u8>) -> Result<Seq<TokenModel>, Failure> {
    tokens_from(s, Cursor::initial())
}

/// A whitespace run ends inside the buffer or at its end, holds only
/// whitespace, and is not followed by whitespace.
pub proof fn lemma_space_run(s: Seq<u8>, from: int)
    requires
        0 <= from <= s.len(),
    ensures
        from <= space_run_end(s, from) <= s.len(),
        forall|i: int| from <= i < space_run_end(s, from) ==> is_whitespace(s[i]),
        space_run_end(s, from) < s.len() ==> !is_whitespace(s[space_run_end(s, from)]),
    decreases s.len() - from,
{
    if from < s.len() && is_whitespace(s[from]) {
        lemma_space_run(s, from + 1);
    }
}

/// A combinator run ends inside the buffer or at its end, holds only
/// combinator bytes, and is not followed by one.
pub proof fn lemma_combinator_run(s: Seq<u8>, from: int)
    requires
        0 <= from <= s.len(),
    ensures
        from <= combinator_run_end(s, from) <= s.len(),
        forall|i: int| from <= i < combinator_run_end(s, from) ==> is_combinator(s[i]),
        combinator_run_end(s, from) < s.len() ==> !is_combinator(s[combinator_run_end(s, from)]),
    decreases s.len() - from,
{
    if from < s.len() && is_combinator(s[from]) {
        lemma_combinator_run(s, from + 1);
    }
}

/// A range holds no more line feeds than bytes, and its last line feed, if
/// it has one, lies in it.
pub proof fn lemma_newlines(s: Seq<u8>, from: int, to: int)
    requires
        from <= to,
    ensures
        0 <= newlines(s, from, to) <= to - from,
        last_newline(s, from, to) matches Some(i) ==> from <= i < to && s[i] == NEWLINE,
    decreases to - from,
{
    if from < to {
        lemma_newlines(s, from, to - 1);
    }
}

/// A closing quote lies at or after the place where its search began and
/// inside the buffer, holds the quote byte, and has an even number of
/// backslashes directly before it; no quote byte between the two places has.
/// Where there is no closing quote, no quote byte from there on has.
pub proof fn lemma_closing_quote(s: Seq<u8>, from: int, quote: u8)
    requires
        0 <= from,
    ensures
        match closing_quote(s, from, quote) {
            Some(i) => {
                &&& from <= i < s.len()
                &&& s[i] == quote
                &&& backslashes_before(s, i) % 2 == 0
                &&& forall|j: int|
                    from <= j < i ==> !(s[j] == quote && backslashes_before(s, j) % 2 == 0)
            },
            None => forall|j: int|
                from <= j < s.len() ==> !(s[j] == quote && backslashes_before(s, j) % 2 == 0),
        },
    decreases s.len() - from,
{
    if from < s.len() && !(s[from] == quote && backslashes_before(s, from) % 2 == 0) {
        lemma_closing_quote(s, from + 1, quote);
    }
}

/// Every token takes at least one byte: a scan from inside the buffer begins
/// its token at the cursor, ends it after the cursor and inside the buffer,
/// and leaves the cursor at the token's end.
pub proof fn lemma_scan_advances(s: Seq<u8>, c: Cursor)
    requires
        0 <= c.start < s.len(),
    ensures
        scan_token(s, c) matches Ok((t, next)) ==> {
            &&& t.pos.0 == c.start
            &&& t.pos.1 == next.start
            &&& c.start < next.start <= s.len()
        },
{
    let b = s[c.start];
    lemma_space_run(s, c.start + 1);
    lemma_combinator_run(s, c.start + 1);
    lemma_closing_quote(s, c.start + 1, b);
    lemma_first_occurrence(s, c.start + 2, comment_close());
    lemma_word_end_bounds(s, c.start);
}

/// A scan from a well-formed cursor leaves a well-formed cursor.
pub proof fn lemma_scan_keeps_wf(s: Seq<u8>, c: Cursor)
    requires
        c.wf(s),
        c.start < s.len(),
    ensures
        scan_token(s, c) matches Ok((t, next)) ==> next.wf(s),
{
    lemma_scan_advances(s, c);
    let b = s[c.start];
    if is_whitespace(b) {
        let end = space_run_end(s, c.start);
        lemma_newlines(s, c.start, end);
    } else if comment_opens(s, c.start) {
        match first_occurrence(s, c.start + 2, comment_close()) {
            Some(close) => {
                lemma_newlines(s, c.start, close + 2);
            },
            None => {},
        }
    }
}

} // verus!
