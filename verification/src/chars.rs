//! Byte classification: the closed set of token categories and the byte
//! predicates that the scanner dispatches on.

use vstd::prelude::*;

verus! {

pub const TAB: u8 = 9;
pub const NEWLINE: u8 = 10;
pub const FEED: u8 = 12;
pub const CR: u8 = 13;
pub const SPACE: u8 = 32;
pub const BANG: u8 = 33;
pub const DOUBLE_QUOTE: u8 = 34;
pub const DOLLAR: u8 = 36;
pub const AMPERSAND: u8 = 38;
pub const SINGLE_QUOTE: u8 = 39;
pub const OPEN_PARENTHESIS: u8 = 40;
pub const CLOSE_PARENTHESIS: u8 = 41;
pub const ASTERISK: u8 = 42;
pub const PLUS: u8 = 43;
pub const COMMA: u8 = 44;
pub const SLASH: u8 = 47;
pub const COLON: u8 = 58;
pub const SEMICOLON: u8 = 59;
pub const EQUALS: u8 = 61;
pub const GREATER: u8 = 62;
pub const AT: u8 = 64;
pub const OPEN_SQUARE: u8 = 91;
pub const BACKSLASH: u8 = 92;
pub const CLOSE_SQUARE: u8 = 93;
pub const CARET: u8 = 94;
pub const PIPE: u8 = 124;
pub const TILDE: u8 = 126;

/// The lexical category of a token.
///
/// Twenty-seven categories stand for one ASCII byte each. `Comment`, `Word`
/// and `Combinator` are made by the scanner and stand for no byte.
#[derive(Copy, Clone, Debug, PartialEq, Eq, Structural)]
pub enum TokenType {
    Ampersand,
    Asterisk,
    At,
    Comma,
    Colon,
    Semicolon,
    OpenParenthesis,
    CloseParenthesis,
    OpenSquare,
    CloseSquare,
    Dollar,
    Tilde,
    Caret,
    Plus,
    Equals,
    Pipe,
    Greater,
    Space,
    SingleQuote,
    DoubleQuote,
    Slash,
    Bang,
    Backslash,
    Cr,
    Feed,
    Newline,
    Tab,
    Comment,
    Word,
    Combinator,
}

impl TokenType {
    /// The byte that a category stands for, if it stands for one.
    pub open spec fn byte(self) -> Option<u8> {
        match self {
            TokenType::Ampersand => Some(AMPERSAND),
            TokenType::Asterisk => Some(ASTERISK),
            TokenType::At => Some(AT),
            TokenType::Comma => Some(COMMA),
            TokenType::Colon => Some(COLON),
            TokenType::Semicolon => Some(SEMICOLON),
            TokenType::OpenParenthesis => Some(OPEN_PARENTHESIS),
            TokenType::CloseParenthesis => Some(CLOSE_PARENTHESIS),
            TokenType::OpenSquare => Some(OPEN_SQUARE),
            TokenType::CloseSquare => Some(CLOSE_SQUARE),
            TokenType::Dollar => Some(DOLLAR),
            TokenType::Tilde => Some(TILDE),
            TokenType::Caret => Some(CARET),
            TokenType::Plus => Some(PLUS),
            TokenType::Equals => Some(EQUALS),
            TokenType::Pipe => Some(PIPE),
            TokenType::Greater => Some(GREATER),
            TokenType::Space => Some(SPACE),
            TokenType::SingleQuote => Some(SINGLE_QUOTE),
            TokenType::DoubleQuote => Some(DOUBLE_QUOTE),
            TokenType::Slash => Some(SLASH),
            TokenType::Bang => Some(BANG),
            TokenType::Backslash => Some(BACKSLASH),
            TokenType::Cr => Some(CR),
            TokenType::Feed => Some(FEED),
            TokenType::Newline => Some(NEWLINE),
            TokenType::Tab => Some(TAB),
            TokenType::Comment => None,
            TokenType::Word => None,
            TokenType::Combinator => None,
        }
    }

    /// The category that stands for a byte: the one whose `byte` it is.
    pub open spec fn of_byte(ch: u8) -> Option<TokenType> {
        if exists|t: TokenType| t.byte() == Some(ch) {
            Some(choose|t: TokenType| t.byte() == Some(ch))
        } else {
            None
        }
    }

    /// The byte of a single-byte category; `None` for the three categories
    /// that the scanner makes.
    pub fn to_byte(self) -> (r: Option<u8>)
        ensures
            r == self.byte(),
    {
        match self {
            TokenType::Ampersand => Some(AMPERSAND),
            TokenType::Asterisk => Some(ASTERISK),
            TokenType::At => Some(AT),
            TokenType::Comma => Some(COMMA),
            TokenType::Colon => Some(COLON),
            TokenType::Semicolon => Some(SEMICOLON),
            TokenType::OpenParenthesis => Some(OPEN_PARENTHESIS),
            TokenType::CloseParenthesis => Some(CLOSE_PARENTHESIS),
            TokenType::OpenSquare => Some(OPEN_SQUARE),
            TokenType::CloseSquare => Some(CLOSE_SQUARE),
            TokenType::Dollar => Some(DOLLAR),
            TokenType::Tilde => Some(TILDE),
            TokenType::Caret => Some(CARET),
            TokenType::Plus => Some(PLUS),
            TokenType::Equals => Some(EQUALS),
            TokenType::Pipe => Some(PIPE),
            TokenType::Greater => Some(GREATER),
            TokenType::Space => Some(SPACE),
            TokenType::SingleQuote => Some(SINGLE_QUOTE),
            TokenType::DoubleQuote => Some(DOUBLE_QUOTE),
            TokenType::Slash => Some(SLASH),
            TokenType::Bang => Some(BANG),
            TokenType::Backslash => Some(BACKSLASH),
            TokenType::Cr => Some(CR),
            TokenType::Feed => Some(FEED),
            TokenType::Newline => Some(NEWLINE),
            TokenType::Tab => Some(TAB),
            TokenType::Comment => None,
            TokenType::Word => None,
            TokenType::Combinator => None,
        }
    }

    /// Classifies a byte: the single-byte category that stands for it, or
    /// `None` where no category does.
    pub fn from_byte(ch: u8) -> (r: Option<TokenType>)
        ensures
            r == TokenType::of_byte(ch),
            forall|t: TokenType| r == Some(t) <==> t.byte() == Some(ch),
            r.is_some() == spec_is_char_valid_token(ch),
    {
        let r = if ch == AMPERSAND {
            Some(TokenType::Ampersand)
        } else if ch == ASTERISK {
            Some(TokenType::Asterisk)
        } else if ch == AT {
            Some(TokenType::At)
        } else if ch == COMMA {
            Some(TokenType::Comma)
        } else if ch == COLON {
            Some(TokenType::Colon)
        } else if ch == SEMICOLON {
            Some(TokenType::Semicolon)
        } else if ch == OPEN_PARENTHESIS {
            Some(TokenType::OpenParenthesis)
        } else if ch == CLOSE_PARENTHESIS {
            Some(TokenType::CloseParenthesis)
        } else if ch == OPEN_SQUARE {
            Some(TokenType::OpenSquare)
        } else if ch == CLOSE_SQUARE {
            Some(TokenType::CloseSquare)
        } else if ch == DOLLAR {
            Some(TokenType::Dollar)
        } else if ch == TILDE {
            Some(TokenType::Tilde)
        } else if ch == CARET {
            Some(TokenType::Caret)
        } else if ch == PLUS {
            Some(TokenType::Plus)
        } else if ch == EQUALS {
            Some(TokenType::Equals)
        } else if ch == PIPE {
            Some(TokenType::Pipe)
        } else if ch == GREATER {
            Some(TokenType::Greater)
        } else if ch == SPACE {
            Some(TokenType::Space)
        } else if ch == SINGLE_QUOTE {
            Some(TokenType::SingleQuote)
        } else if ch == DOUBLE_QUOTE {
            Some(TokenType::DoubleQuote)
        } else if ch == SLASH {
            Some(TokenType::Slash)
        } else if ch == BANG {
            Some(TokenType::Bang)
        } else if ch == BACKSLASH {
            Some(TokenType::Backslash)
        } else if ch == CR {
            Some(TokenType::Cr)
        } else if ch == FEED {
            Some(TokenType::Feed)
        } else if ch == NEWLINE {
            Some(TokenType::Newline)
        } else if ch == TAB {
            Some(TokenType::Tab)
        } else {
            None
        };
        proof {
            lemma_byte_injective();
            lemma_of_byte(ch);
        }
        r
    }
}

/// No two categories stand for the same byte.
pub proof fn lemma_byte_injective()
    ensures
        forall|a: TokenType, b: TokenType| a.byte().is_some() && a.byte() == b.byte() ==> a == b,
{
}

/// A category's byte is one of the twenty-seven recognised bytes.
pub proof fn lemma_byte_range(t: TokenType)
    ensures
        t.byte().is_some() ==> spec_is_char_valid_token(t.byte().unwrap()),
{
}

/// Every recognised byte has a category, which stands for that byte, and
/// no other byte has one.
pub proof fn lemma_of_byte(ch: u8)
    ensures
        spec_is_char_valid_token(ch) <==> TokenType::of_byte(ch).is_some(),
        TokenType::of_byte(ch) matches Some(t) ==> t.byte() == Some(ch),
{
    if ch == AMPERSAND {
        assert(TokenType::Ampersand.byte() == Some(ch));
    } else if ch == ASTERISK {
        assert(TokenType::Asterisk.byte() == Some(ch));
    } else if ch == AT {
        assert(TokenType::At.byte() == Some(ch));
    } else if ch == COMMA {
        assert(TokenType::Comma.byte() == Some(ch));
    } else if ch == COLON {
        assert(TokenType::Colon.byte() == Some(ch));
    } else if ch == SEMICOLON {
        assert(TokenType::Semicolon.byte() == Some(ch));
    } else if ch == OPEN_PARENTHESIS {
        assert(TokenType::OpenParenthesis.byte() == Some(ch));
    } else if ch == CLOSE_PARENTHESIS {
        assert(TokenType::CloseParenthesis.byte() == Some(ch));
    } else if ch == OPEN_SQUARE {
        assert(TokenType::OpenSquare.byte() == Some(ch));
    } else if ch == CLOSE_SQUARE {
        assert(TokenType::CloseSquare.byte() == Some(ch));
    } else if ch == DOLLAR {
        assert(TokenType::Dollar.byte() == Some(ch));
    } else if ch == TILDE {
        assert(TokenType::Tilde.byte() == Some(ch));
    } else if ch == CARET {
        assert(TokenType::Caret.byte() == Some(ch));
    } else if ch == PLUS {
        assert(TokenType::Plus.byte() == Some(ch));
    } else if ch == EQUALS {
        assert(TokenType::Equals.byte() == Some(ch));
    } else if ch == PIPE {
        assert(TokenType::Pipe.byte() == Some(ch));
    } else if ch == GREATER {
        assert(TokenType::Greater.byte() == Some(ch));
    } else if ch == SPACE {
        assert(TokenType::Space.byte() == Some(ch));
    } else if ch == SINGLE_QUOTE {
        assert(TokenType::SingleQuote.byte() == Some(ch));
    } else if ch == DOUBLE_QUOTE {
        assert(TokenType::DoubleQuote.byte() == Some(ch));
    } else if ch == SLASH {
        assert(TokenType::Slash.byte() == Some(ch));
    } else if ch == BANG {
        assert(TokenType::Bang.byte() == Some(ch));
    } else if ch == BACKSLASH {
        assert(TokenType::Backslash.byte() == Some(ch));
    } else if ch == CR {
        assert(TokenType::Cr.byte() == Some(ch));
    } else if ch == FEED {
        assert(TokenType::Feed.byte() == Some(ch));
    } else if ch == NEWLINE {
        assert(TokenType::Newline.byte() == Some(ch));
    } else if ch == TAB {
        assert(TokenType::Tab.byte() == Some(ch));
    } else {
        assert forall|t: TokenType| t.byte() != Some(ch) by {
            lemma_byte_range(t);
        }
    }
}

pub open spec fn spec_is_char_valid_token(ch: u8) -> bool {
    ch == AMPERSAND || ch == ASTERISK || ch == AT || ch == COMMA || ch == COLON || ch == SEMICOLON
        || ch == OPEN_PARENTHESIS || ch == CLOSE_PARENTHESIS || ch == OPEN_SQUARE || ch
        == CLOSE_SQUARE || ch == DOLLAR || ch == TILDE || ch == CARET || ch == PLUS || ch == EQUALS
        || ch == PIPE || ch == GREATER || ch == SPACE || ch == SINGLE_QUOTE || ch == DOUBLE_QUOTE
        || ch == SLASH || ch == BANG || ch == BACKSLASH || ch == CR || ch == FEED || ch == NEWLINE
        || ch == TAB
}

/// Whether a byte is one of the recognised structural, punctuation or
/// whitespace bytes, that is, whether a category stands for it.
#[verifier::when_used_as_spec(spec_is_char_valid_token)]
pub fn is_char_valid_token(ch: u8) -> (r: bool)
    ensures
        r == spec_is_char_valid_token(ch),
        r == TokenType::of_byte(ch).is_some(),
{
    TokenType::from_byte(ch).is_some()
}

pub open spec fn spec_is_whitespace(ch: u8) -> bool {
    ch == SPACE || ch == TAB || ch == NEWLINE || ch == CR || ch == FEED
}

/// Space, tab, line feed, carriage return or form feed.
#[verifier::when_used_as_spec(spec_is_whitespace)]
pub fn is_whitespace(ch: u8) -> (r: bool)
    ensures
        r == spec_is_whitespace(ch),
{
    ch == SPACE || ch == TAB || ch == NEWLINE || ch == CR || ch == FEED
}

pub open spec fn spec_is_unescapable(ch: u8) -> bool {
    ch == TAB || ch == NEWLINE || ch == CR || ch == FEED
}

/// A control byte that an escape takes literally: tab, line feed, carriage
/// return or form feed.
#[verifier::when_used_as_spec(spec_is_unescapable)]
pub fn is_unescapable(ch: u8) -> (r: bool)
    ensures
        r == spec_is_unescapable(ch),
{
    ch == TAB || ch == NEWLINE || ch == CR || ch == FEED
}

pub open spec fn spec_is_combinator(ch: u8) -> bool {
    ch == PLUS || ch == GREATER || ch == TILDE || ch == PIPE
}

/// One of the four combinator bytes `+`, `>`, `~`, `|`.
#[verifier::when_used_as_spec(spec_is_combinator)]
pub fn is_combinator(ch: u8) -> (r: bool)
    ensures
        r == spec_is_combinator(ch),
{
    ch == PLUS || ch == GREATER || ch == TILDE || ch == PIPE
}

pub open spec fn spec_is_single(ch: u8) -> bool {
    ch == ASTERISK || ch == AMPERSAND || ch == BANG || ch == COMMA || ch == EQUALS || ch == DOLLAR
        || ch == CARET || ch == OPEN_SQUARE || ch == CLOSE_SQUARE || ch == COLON || ch
        == SEMICOLON || ch == OPEN_PARENTHESIS || ch == CLOSE_PARENTHESIS
}

/// A punctuation byte that always makes a token of one byte:
/// `* & ! , = $ ^ [ ] : ; ( )`.
#[verifier::when_used_as_spec(spec_is_single)]
pub fn is_single(ch: u8) -> (r: bool)
    ensures
        r == spec_is_single(ch),
{
    ch == ASTERISK || ch == AMPERSAND || ch == BANG || ch == COMMA || ch == EQUALS || ch == DOLLAR
        || ch == CARET || ch == OPEN_SQUARE || ch == CLOSE_SQUARE || ch == COLON || ch
        == SEMICOLON || ch == OPEN_PARENTHESIS || ch == CLOSE_PARENTHESIS
}

pub open spec fn spec_is_quote(ch: u8) -> bool {
    ch == SINGLE_QUOTE || ch == DOUBLE_QUOTE
}

/// `'` or `"`.
#[verifier::when_used_as_spec(spec_is_quote)]
pub fn is_quote(ch: u8) -> (r: bool)
    ensures
        r == spec_is_quote(ch),
{
    ch == SINGLE_QUOTE || ch == DOUBLE_QUOTE
}

pub open spec fn spec_is_hex(ch: u8) -> bool {
    (48 <= ch <= 57) || (97 <= ch <= 102) || (65 <= ch <= 70)
}

/// An ASCII hexadecimal digit, in either case.
#[verifier::when_used_as_spec(spec_is_hex)]
pub fn is_hex(ch: u8) -> (r: bool)
    ensures
        r == spec_is_hex(ch),
{
    (48 <= ch && ch <= 57) || (97 <= ch && ch <= 102) || (65 <= ch && ch <= 70)
}

/// A byte ends a word where it is whitespace, a combinator byte, a quote, a
/// slash or a punctuation byte that makes a token of its own. Backslash and
/// `@` do not end a word.
pub open spec fn spec_is_word_delimiter(t: u8) -> bool {
    spec_is_whitespace(t) || spec_is_combinator(t) || spec_is_single(t) || spec_is_quote(t) || t
        == SLASH
}

/// Whether a byte ends a word that is being scanned.
#[verifier::when_used_as_spec(spec_is_word_delimiter)]
pub fn is_word_delimiter(t: u8) -> (r: bool)
    ensures
        r == spec_is_word_delimiter(t),
{
    is_whitespace(t) || is_combinator(t) || is_single(t) || is_quote(t) || t == SLASH
}

} // verus!
