//! The entry point of a selector parser: it owns the source text and the
//! token stream that the scanner made of it.

use vstd::prelude::*;
use vstd::string::StringSliceAdditionalSpecFns;
use crate::model::{tokenization, TokenModel};
use crate::tokenizer::{token_views, Token, TokenizeError, Tokenizer};

verus! {

/// What a parser can be asked for.
pub struct ParserOptions {
    /// Whether insignificant whitespace may be dropped.
    pub lossy: bool,
    /// A request for a scan that repairs unclosed input. There is no such
    /// scan, and the value is never read.
    pub safe: Option<bool>,
}

/// A parser at the start of its token stream.
pub struct Parser<'a> {
    css: &'a str,
    lossy: bool,
    tokens: Vec<Token>,
    position: usize,
}

impl<'a> Parser<'a> {
    /// The bytes of the source text.
    pub closed spec fn source(&self) -> Seq<u8> {
        self.css.spec_bytes()
    }

    /// The token stream that the parser reads.
    pub closed spec fn stream(&self) -> Seq<TokenModel> {
        token_views(self.tokens@)
    }

    /// The index of the next token to read.
    pub closed spec fn spec_position(&self) -> int {
        self.position as int
    }

    /// Whether insignificant whitespace may be dropped.
    pub closed spec fn spec_lossy(&self) -> bool {
        self.lossy
    }

    /// Scans `css` and makes a parser that stands before the first token of
    /// its stream. Text that has no token stream gives the scan's error.
    pub fn new(css: &'a str, lossy: bool) -> (r: Result<Parser<'a>, TokenizeError>)
        ensures
            match tokenization(css.spec_bytes()) {
                Ok(toks) => {
                    &&& r matches Ok(p)
                    &&& p.source() == css.spec_bytes()
                    &&& p.stream() == toks
                    &&& p.spec_position() == 0
                    &&& p.spec_lossy() == lossy
                },
                Err(e) => r matches Err(err) && err@ == e,
            },
    {
        let mut tokenizer = Tokenizer::new(css, None);
        match tokenizer.tokenize() {
            Ok(tokens) => Ok(Parser { css, lossy, tokens, position: 0 }),
            Err(e) => Err(e),
        }
    }

    /// The source text.
    pub fn css(&self) -> (text: &'a str)
        ensures
            text.spec_bytes() == self.source(),
    {
        self.css
    }

    /// The tokens of the stream, in order.
    pub fn tokens(&self) -> (v: &Vec<Token>)
        ensures
            token_views(v@) == self.stream(),
    {
        &self.tokens
    }

    /// The index of the next token to read.
    pub fn position(&self) -> (p: usize)
        ensures
            p == self.spec_position(),
    {
        self.position
    }

    /// Whether insignificant whitespace may be dropped.
    pub fn lossy(&self) -> (l: bool)
        ensures
            l == self.spec_lossy(),
    {
        self.lossy
    }
}

} // verus!
