//! The scanner: a cursor over a byte buffer that is driven token by token,
//! or to the end of the buffer in one call.

use vstd::prelude::*;
use vstd::string::StringExecFns;
use vstd::string::StringSliceAdditionalSpecFns;
use vstd::string::is_ascii_spec_bytes;
pub use crate::chars::TokenType;
use crate::chars::{
    is_combinator, is_quote, is_single, is_whitespace, is_word_delimiter, ASTERISK, BACKSLASH,
    NEWLINE, SLASH,
};
use crate::laws::{lemma_contiguity, lemma_reconstruction};
pub use crate::model::ErrorKind;
use crate::model::{
    backslashes_before, closing_quote, combinator_run_end, comment_close, comment_opens,
    comment_token, contiguous, escape_failure, flat_token, followed_by, last_cursor,
    last_newline, lemma_scan_advances, lemma_scan_keeps_wf, lexemes, newlines, scan_token,
    space_run_end, space_token, tokens_from, word_token, Cursor, Failure, TokenModel,
};
use crate::search::{find_str, first_occurrence};
use crate::util::decimal_string;
use crate::words::{consume_word, word_end};

verus! {

/// A token: its category, its first and last line, its first and last
/// column, and the half-open range of its bytes in the buffer.
///
/// Lines and columns count from zero. A column is a distance in bytes from
/// the scanner's line start, not a count of characters.
#[derive(Copy, Clone, Debug, PartialEq, Eq)]
pub struct Token {
    pub ty: TokenType,
    pub line: (usize, usize),
    pub col: (usize, usize),
    pub pos: (usize, usize),
}

impl View for Token {
    type V = TokenModel;

    open spec fn view(&self) -> TokenModel {
        TokenModel {
            ty: self.ty,
            line: (self.line.0 as int, self.line.1 as int),
            col: (self.col.0 as int, self.col.1 as int),
            pos: (self.pos.0 as int, self.pos.1 as int),
        }
    }
}

/// The views of a sequence of tokens.
pub open spec fn token_views(v: Seq<Token>) -> Seq<TokenModel> {
    Seq::new(v.len(), |i: int| v[i]@)
}

/// Why and where a scan failed. No token is returned with it.
#[derive(Copy, Clone, Debug, PartialEq, Eq)]
pub struct TokenizeError {
    pub kind: ErrorKind,
    pub line: usize,
    pub column: usize,
    pub offset: usize,
}

impl View for TokenizeError {
    type V = Failure;

    open spec fn view(&self) -> Failure {
        Failure {
            kind: self.kind,
            line: self.line as int,
            column: self.column as int,
            offset: self.offset as int,
        }
    }
}

impl TokenizeError {
    /// The failure as a message for people.
    pub fn message(&self) -> (m: String)
        ensures
            m@ == self@.message(),
    {
        let what = match self.kind {
            ErrorKind::UnclosedQuote => "Unclosed quote",
            ErrorKind::UnclosedComment => "Unclosed comment",
            ErrorKind::MalformedEscape => "Malformed escape",
        };
        let mut m = String::from_str(what);
        m.append(". ");
        m.append(decimal_string(self.line).as_str());
        m.append(" ");
        m.append(decimal_string(self.column).as_str());
        m.append(" ");
        m.append(decimal_string(self.offset).as_str());
        proof {
            assert(m@ =~= self@.message());
        }
        m
    }
}

/// A scanner over one buffer.
pub struct Tokenizer<'a> {
    css: &'a [u8],
    line: usize,
    start: usize,
    offset: usize,
}

impl<'a> Tokenizer<'a> {
    /// The buffer that is scanned.
    pub closed spec fn bytes(&self) -> Seq<u8> {
        self.css@
    }

    /// The scanner's state.
    pub closed spec fn cursor(&self) -> Cursor {
        Cursor { start: self.start as int, line: self.line as int, offset: self.offset as int }
    }

    /// The state always fits the buffer: the cursor lies inside it or at
    /// its end, the line start does not lie after the cursor, and no more
    /// lines were counted than bytes passed.
    #[verifier::type_invariant]
    spec fn fits(&self) -> bool {
        self.cursor().wf(self.bytes())
    }

    /// A scanner at the start of the bytes of `input`.
    ///
    /// `safe` asks for a scan that repairs unclosed input. There is no such
    /// scan: the argument is ignored, and unclosed input is an error.
    pub fn new(input: &'a str, safe: Option<bool>) -> (t: Self)
        ensures
            t.bytes() == input.spec_bytes(),
            t.cursor() == Cursor::initial(),
    {
        Tokenizer { css: input.as_bytes(), line: 0, start: 0, offset: 0 }
    }

    /// Whether the cursor has reached the end of the buffer.
    pub fn is_done(&self) -> (done: bool)
        ensures
            done == (self.cursor().start == self.bytes().len()),
            self.cursor().wf(self.bytes()),
    {
        proof {
            use_type_invariant(&*self);
        }
        self.start >= self.css.len()
    }

    /// The error for something that opens at the cursor and never closes.
    pub fn unclosed(&self, kind: ErrorKind) -> (e: TokenizeError)
        ensures
            e@ == self.cursor().failure(kind),
    {
        proof {
            use_type_invariant(&*self);
        }
        TokenizeError {
            kind,
            line: self.line,
            column: self.start - self.offset,
            offset: self.start,
        }
    }

    /// Makes the token from the cursor to `end`, on one line and with one
    /// column, and moves the cursor to `end`.
    fn flat(&mut self, ty: TokenType, end: usize) -> (tok: Token)
        requires
            old(self).cursor().start < end <= old(self).bytes().len(),
        ensures
            final(self).bytes() == old(self).bytes(),
            (tok@, final(self).cursor()) == flat_token(ty, old(self).cursor(), end as int),
    {
        proof {
            use_type_invariant(&*self);
        }
        let column = self.start - self.offset;
        let tok = Token {
            ty,
            line: (self.line, self.line),
            col: (column, column),
            pos: (self.start, end),
        };
        self.start = end;
        tok
    }

    /// Scans the whitespace run at the cursor.
    fn scan_space(&mut self) -> (tok: Token)
        requires
            old(self).cursor().start < old(self).bytes().len(),
            is_whitespace(old(self).bytes()[old(self).cursor().start]),
        ensures
            final(self).bytes() == old(self).bytes(),
            (tok@, final(self).cursor()) == space_token(old(self).bytes(), old(self).cursor()),
    {
        proof {
            use_type_invariant(&*self);
        }
        let css = self.css;
        let length: usize = css.len();
        let first: usize = self.start;
        let mut line: usize = self.line;
        let mut offset: usize = self.offset;
        if css[first] == NEWLINE {
            offset = first;
            line += 1;
        }
        let start_line: usize = line;
        let start_column: usize = first - offset;
        let mut next: usize = first + 1;
        assert(newlines(css@, first as int, first as int) == 0);
        assert(last_newline(css@, first as int, first as int).is_none());
        while next < length && is_whitespace(css[next])
            invariant
                length == css@.len(),
                first < next <= length,
                space_run_end(css@, next as int) == space_run_end(css@, first as int),
                line == old(self).cursor().line + newlines(css@, first as int, next as int),
                offset == match last_newline(css@, first as int, next as int) {
                    Some(i) => i,
                    None => old(self).cursor().offset,
                },
                offset < next,
                line <= next,
            decreases length - next,
        {
            if css[next] == NEWLINE {
                offset = next;
                line += 1;
            }
            next += 1;
        }
        let tok = Token {
            ty: TokenType::Space,
            line: (start_line, line),
            col: (start_column, next - offset - 1),
            pos: (first, next),
        };
        self.start = next;
        self.line = line;
        self.offset = offset;
        tok
    }

    /// Scans the combinator run at the cursor.
    fn scan_combinator(&mut self) -> (tok: Token)
        requires
            old(self).cursor().start < old(self).bytes().len(),
            is_combinator(old(self).bytes()[old(self).cursor().start]),
        ensures
            final(self).bytes() == old(self).bytes(),
            (tok@, final(self).cursor()) == flat_token(
                TokenType::Combinator,
                old(self).cursor(),
                combinator_run_end(old(self).bytes(), old(self).cursor().start),
            ),
    {
        proof {
            use_type_invariant(&*self);
        }
        let css = self.css;
        let length: usize = css.len();
        let first: usize = self.start;
        let mut next: usize = first + 1;
        while next < length && is_combinator(css[next])
            invariant
                length == css@.len(),
                first < next <= length,
                combinator_run_end(css@, next as int) == combinator_run_end(css@, first as int),
            decreases length - next,
        {
            next += 1;
        }
        self.flat(TokenType::Combinator, next)
    }

    /// Scans the string that the quote at the cursor opens.
    fn scan_quote(&mut self, quote: u8) -> (r: Result<Token, TokenizeError>)
        requires
            old(self).cursor().start < old(self).bytes().len(),
            old(self).bytes()[old(self).cursor().start] == quote,
            quote != BACKSLASH,
        ensures
            final(self).bytes() == old(self).bytes(),
            match closing_quote(old(self).bytes(), old(self).cursor().start + 1, quote) {
                Some(i) => r matches Ok(tok) && (tok@, final(self).cursor()) == flat_token(
                    TokenType::SingleQuote,
                    old(self).cursor(),
                    i + 1,
                ),
                None => r matches Err(e) && e@ == old(self).cursor().failure(
                    ErrorKind::UnclosedQuote,
                ) && final(self).cursor() == old(self).cursor(),
            },
    {
        proof {
            use_type_invariant(&*self);
        }
        let css = self.css;
        let length: usize = css.len();
        let first: usize = self.start;
        let mut next: usize = first + 1;
        while next < length
            invariant
                length == css@.len(),
                first < next <= length,
                css@[first as int] == quote,
                quote != BACKSLASH,
                closing_quote(css@, next as int, quote) == closing_quote(
                    css@,
                    first + 1,
                    quote,
                ),
                *self == *old(self),
                self.css == css,
                self.start == first,
            decreases length - next,
        {
            if css[next] == quote {
                let mut escape_pos: usize = next;
                let mut escaped = false;
                while css[escape_pos - 1] == BACKSLASH
                    invariant
                        length == css@.len(),
                        first < escape_pos <= next < length,
                        css@[first as int] == quote,
                        quote != BACKSLASH,
                        backslashes_before(css@, next as int) == (next - escape_pos)
                            + backslashes_before(css@, escape_pos as int),
                        escaped == ((next - escape_pos) % 2 == 1),
                    decreases escape_pos,
                {
                    escape_pos -= 1;
                    escaped = !escaped;
                }
                if !escaped {
                    return Ok(self.flat(TokenType::SingleQuote, next + 1));
                }
            }
            next += 1;
        }
        Err(self.unclosed(ErrorKind::UnclosedQuote))
    }

    /// Scans the comment that opens at the cursor.
    fn scan_comment(&mut self) -> (r: Result<Token, TokenizeError>)
        requires
            comment_opens(old(self).bytes(), old(self).cursor().start),
        ensures
            final(self).bytes() == old(self).bytes(),
            match first_occurrence(
                old(self).bytes(),
                old(self).cursor().start + 2,
                comment_close(),
            ) {
                Some(close) => r matches Ok(tok) && (tok@, final(self).cursor()) == comment_token(
                    old(self).bytes(),
                    old(self).cursor(),
                    close,
                ),
                None => r matches Err(e) && e@ == old(self).cursor().failure(
                    ErrorKind::UnclosedComment,
                ) && final(self).cursor() == old(self).cursor(),
            },
    {
        proof {
            use_type_invariant(&*self);
        }
        let css = self.css;
        let length: usize = css.len();
        let first: usize = self.start;
        let terminator = "*/";
        proof {
            reveal_strlit("*/");
            assert(vstd::string::is_ascii(terminator)) by {
                assert forall|i: int| 0 <= i < terminator@.len() implies (terminator@[i] as u32)
                    < 128 by {}
            }
            is_ascii_spec_bytes(terminator);
            assert(terminator.spec_bytes() =~= comment_close());
        }
        let found = find_str(css, first + 2, terminator);
        let close: usize = match found {
            Some(k) => first + 2 + k,
            None => {
                return Err(self.unclosed(ErrorKind::UnclosedComment));
            },
        };
        proof {
            assert(css@[close + 1] == comment_close()[1]);
        }
        let end: usize = close + 2;
        let mut line: usize = self.line;
        let mut offset: usize = self.offset;
        let mut i: usize = first;
        while i < end
            invariant
                length == css@.len(),
                first <= i <= end <= length,
                line == old(self).cursor().line + newlines(css@, first as int, i as int),
                offset == match last_newline(css@, first as int, i as int) {
                    Some(j) => j + 1,
                    None => old(self).cursor().offset,
                },
                old(self).cursor().offset <= first,
                old(self).cursor().line <= first,
                offset <= i,
                line <= i,
                i == end ==> offset < end,
                css@[end - 1] == SLASH,
            decreases end - i,
        {
            if css[i] == NEWLINE {
                line += 1;
                offset = i + 1;
            }
            i += 1;
        }
        let tok = Token {
            ty: TokenType::Comment,
            line: (self.line, line),
            col: (first - self.offset, end - 1 - offset),
            pos: (first, end),
        };
        self.start = end;
        self.line = line;
        self.offset = offset;
        Ok(tok)
    }

    /// Scans the word that begins at the cursor.
    fn scan_word(&mut self) -> (r: Result<Token, TokenizeError>)
        requires
            old(self).cursor().start < old(self).bytes().len(),
            !is_word_delimiter(old(self).bytes()[old(self).cursor().start]),
        ensures
            final(self).bytes() == old(self).bytes(),
            match word_end(old(self).bytes(), old(self).cursor().start) {
                Some(end) => r matches Ok(tok) && (tok@, final(self).cursor()) == word_token(
                    old(self).cursor(),
                    end,
                ),
                None => r matches Err(e) && e@ == escape_failure(
                    old(self).bytes(),
                    old(self).cursor(),
                ) && final(self).cursor() == old(self).cursor(),
            },
    {
        proof {
            use_type_invariant(&*self);
        }
        let css = self.css;
        let length: usize = css.len();
        match consume_word(css, self.start) {
            Some(last) => {
                let tok = Token {
                    ty: TokenType::Word,
                    line: (self.line, self.line),
                    col: (self.start - self.offset, last - self.offset),
                    pos: (self.start, last + 1),
                };
                self.start = last + 1;
                Ok(tok)
            },
            None => Err(
                TokenizeError {
                    kind: ErrorKind::MalformedEscape,
                    line: self.line,
                    column: length - 1 - self.offset,
                    offset: length - 1,
                },
            ),
        }
    }

    /// Scans one token at the cursor and moves the cursor past it.
    ///
    /// On failure the cursor stays where it was.
    pub fn next_token(&mut self) -> (r: Result<Token, TokenizeError>)
        requires
            old(self).cursor().start < old(self).bytes().len(),
        ensures
            final(self).bytes() == old(self).bytes(),
            match scan_token(old(self).bytes(), old(self).cursor()) {
                Ok((t, next)) => r matches Ok(tok) && tok@ == t && final(self).cursor() == next,
                Err(e) => r matches Err(err) && err@ == e && final(self).cursor() == old(
                    self,
                ).cursor(),
            },
    {
        proof {
            use_type_invariant(&*self);
        }
        proof {
            lemma_scan_advances(self.bytes(), self.cursor());
            lemma_scan_keeps_wf(self.bytes(), self.cursor());
        }
        let css = self.css;
        let length: usize = css.len();
        let code = css[self.start];
        if is_whitespace(code) {
            Ok(self.scan_space())
        } else if is_combinator(code) {
            Ok(self.scan_combinator())
        } else if is_single(code) {
            let ty = TokenType::from_byte(code).unwrap();
            Ok(self.flat(ty, self.start + 1))
        } else if is_quote(code) {
            self.scan_quote(code)
        } else if code == SLASH && self.start + 1 < length && css[self.start + 1] == ASTERISK {
            self.scan_comment()
        } else if code == SLASH {
            Ok(self.flat(TokenType::Slash, self.start + 1))
        } else {
            self.scan_word()
        }
    }

    /// Scans the buffer from the cursor to its end.
    ///
    /// Returns the tokens of the model's stream, in order, or the stream's
    /// failure and no token. The tokens lie end to end from the cursor to
    /// the end of the buffer, so their lexemes, put one after the other,
    /// are the bytes that were scanned. The cursor is left at the end of the
    /// buffer, or at the token that failed.
    pub fn tokenize(&mut self) -> (r: Result<Vec<Token>, TokenizeError>)
        ensures
            final(self).bytes() == old(self).bytes(),
            final(self).cursor() == last_cursor(old(self).bytes(), old(self).cursor()),
            match tokens_from(old(self).bytes(), old(self).cursor()) {
                Ok(toks) => {
                    &&& r matches Ok(v) && token_views(v@) == toks
                    &&& final(self).cursor().start == old(self).bytes().len()
                    &&& contiguous(toks, old(self).cursor().start, old(self).bytes().len() as int)
                    &&& lexemes(old(self).bytes(), toks) == old(self).bytes().subrange(
                        old(self).cursor().start,
                        old(self).bytes().len() as int,
                    )
                },
                Err(e) => r matches Err(err) && err@ == e,
            },
    {
        proof {
            use_type_invariant(&*self);
        }
        let mut tokens: Vec<Token> = Vec::new();
        let length: usize = self.css.len();
        proof {
            lemma_contiguity(self.bytes(), self.cursor());
            lemma_reconstruction(self.bytes(), self.cursor());
            assert(token_views(tokens@) =~= Seq::<TokenModel>::empty());
        }
        while self.start < length
            invariant
                length == self.bytes().len(),
                self.bytes() == old(self).bytes(),
                last_cursor(self.bytes(), self.cursor()) == last_cursor(
                    old(self).bytes(),
                    old(self).cursor(),
                ),
                followed_by(token_views(tokens@), tokens_from(self.bytes(), self.cursor()))
                    == tokens_from(old(self).bytes(), old(self).cursor()),
            decreases length - self.start,
        {
            let ghost seen = token_views(tokens@);
            proof {
                use_type_invariant(&*self);
                lemma_scan_advances(self.bytes(), self.cursor());
            }
            match self.next_token() {
                Ok(tok) => {
                    tokens.push(tok);
                    proof {
                        let rest = tokens_from(self.bytes(), self.cursor());
                        assert(token_views(tokens@) =~= seen.push(tok@));
                        match rest {
                            Ok(r) => {
                                assert(seen + (seq![tok@] + r) =~= seen.push(tok@) + r);
                            },
                            Err(_) => {},
                        }
                    }
                },
                Err(e) => {
                    return Err(e);
                },
            }
        }
        proof {
            use_type_invariant(&*self);
            assert(token_views(tokens@) + Seq::<TokenModel>::empty() =~= token_views(tokens@));
        }
        Ok(tokens)
    }
}

} // verus!
