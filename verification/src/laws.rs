//! Properties of the token stream.

use vstd::prelude::*;
use crate::chars::{is_combinator, is_whitespace, lemma_of_byte, TokenType};
use crate::model::{
    contiguous, lemma_combinator_run, lemma_scan_advances, lemma_space_run, lexemes, scan_token,
    tokenization, tokens_from, Cursor, TokenModel,
};

verus! {

/// Contiguity: the tokens of a stream lie end to end. The first begins at
/// the cursor, each next one begins where the one before it ends, the last
/// ends at the end of the buffer, and none is empty.
pub proof fn lemma_contiguity(s: Seq<u8>, c: Cursor)
    requires
        0 <= c.start <= s.len(),
    ensures
        tokens_from(s, c) matches Ok(toks) ==> contiguous(toks, c.start, s.len() as int),
    decreases s.len() - c.start,
{
    if c.start < s.len() {
        lemma_scan_advances(s, c);
        match scan_token(s, c) {
            Ok((t, next)) => {
                lemma_contiguity(s, next);
                match tokens_from(s, next) {
                    Ok(rest) => {
                        let toks = seq![t] + rest;
                        assert(toks[0] == t);
                        assert forall|i: int| 0 <= i < toks.len() implies (#[trigger] toks[i]).pos.0
                            < toks[i].pos.1 by {
                            if i > 0 {
                                assert(toks[i] == rest[i - 1]);
                            }
                        }
                        assert forall|i: int| 0 <= i < toks.len() - 1 implies (#[trigger] toks[i
                            + 1]).pos.0 == toks[i].pos.1 by {
                            assert(toks[i + 1] == rest[i]);
                            if i > 0 {
                                assert(toks[i] == rest[i - 1]);
                                assert(rest[(i - 1) + 1] == rest[i]);
                            }
                        }
                        if rest.len() > 0 {
                            assert(toks[toks.len() - 1] == rest[rest.len() - 1]);
                        }
                    },
                    Err(_) => {},
                }
            },
            Err(_) => {},
        }
    }
}

/// Contiguity of a whole buffer: the first token of its stream begins at
/// byte 0, each next one begins where the one before it ends, and the last
/// ends at the buffer's length. An empty stream belongs to an empty buffer.
pub proof fn lemma_stream_covers_input(s: Seq<u8>)
    ensures
        tokenization(s) matches Ok(toks) ==> contiguous(toks, 0, s.len() as int),
{
    lemma_contiguity(s, Cursor::initial());
}

/// Reconstruction: the lexemes of a stream, put one after the other, are
/// the bytes of the buffer from the cursor to its end.
pub proof fn lemma_reconstruction(s: Seq<u8>, c: Cursor)
    requires
        0 <= c.start <= s.len(),
    ensures
        tokens_from(s, c) matches Ok(toks) ==> lexemes(s, toks) == s.subrange(
            c.start,
            s.len() as int,
        ),
    decreases s.len() - c.start,
{
    if c.start < s.len() {
        lemma_scan_advances(s, c);
        match scan_token(s, c) {
            Ok((t, next)) => {
                lemma_reconstruction(s, next);
                match tokens_from(s, next) {
                    Ok(rest) => {
                        let toks = seq![t] + rest;
                        assert(toks[0] == t);
                        assert(toks.drop_first() =~= rest);
                        assert(s.subrange(c.start, next.start) + s.subrange(
                            next.start,
                            s.len() as int,
                        ) =~= s.subrange(c.start, s.len() as int));
                    },
                    Err(_) => {},
                }
            },
            Err(_) => {},
        }
    } else {
        assert(s.subrange(c.start, s.len() as int) =~= Seq::<u8>::empty());
    }
}

/// Reconstruction of a whole buffer: the lexemes of its stream, put one
/// after the other, are the buffer.
pub proof fn lemma_lexemes_are_input(s: Seq<u8>)
    ensures
        tokenization(s) matches Ok(toks) ==> lexemes(s, toks) == s,
{
    lemma_reconstruction(s, Cursor::initial());
    assert(s.subrange(0, s.len() as int) =~= s);
}

/// Round trip: where a buffer has a token stream, the bytes that the
/// stream's lexemes make, scanned again, give the same stream: the same
/// categories, ranges, lines and columns.
pub proof fn lemma_round_trip(s: Seq<u8>, toks: Seq<TokenModel>)
    requires
        tokenization(s) == Ok::<Seq<TokenModel>, crate::model::Failure>(toks),
    ensures
        tokenization(lexemes(s, toks)) == Ok::<Seq<TokenModel>, crate::model::Failure>(toks),
{
    lemma_lexemes_are_input(s);
}

/// A `Space` token is a whole run of whitespace, and a `Combinator` token a
/// whole run of combinator bytes: every byte of the token is of the run's
/// kind, and the byte after the token, if there is one, is not.
pub open spec fn whole_run(s: Seq<u8>, t: TokenModel) -> bool {
    &&& 0 <= t.pos.0 < t.pos.1 <= s.len()
    &&& t.ty == TokenType::Space ==> {
        &&& forall|k: int| t.pos.0 <= k < t.pos.1 ==> is_whitespace(s[k])
        &&& t.pos.1 < s.len() ==> !is_whitespace(s[t.pos.1])
    }
    &&& t.ty == TokenType::Combinator ==> {
        &&& forall|k: int| t.pos.0 <= k < t.pos.1 ==> is_combinator(s[k])
        &&& t.pos.1 < s.len() ==> !is_combinator(s[t.pos.1])
    }
}

/// The token of one scan is a whole run where it is a `Space` or a
/// `Combinator`.
pub proof fn lemma_scan_whole_run(s: Seq<u8>, c: Cursor)
    requires
        0 <= c.start < s.len(),
    ensures
        scan_token(s, c) matches Ok((t, _)) ==> whole_run(s, t),
{
    let b = s[c.start];
    lemma_scan_advances(s, c);
    lemma_space_run(s, c.start);
    lemma_combinator_run(s, c.start);
    lemma_of_byte(b);
}

/// Run collapsing: however long a run of whitespace or of combinator bytes
/// is, the stream holds it as one token. Every `Space` and every
/// `Combinator` of the stream is a whole run, and no token is followed by
/// another of the same run category.
pub proof fn lemma_runs_collapse(s: Seq<u8>, c: Cursor)
    requires
        0 <= c.start <= s.len(),
    ensures
        tokens_from(s, c) matches Ok(toks) ==> {
            &&& forall|i: int| 0 <= i < toks.len() ==> whole_run(s, #[trigger] toks[i])
            &&& forall|i: int|
                0 <= i < toks.len() - 1 ==> !((#[trigger] toks[i + 1]).ty == TokenType::Space
                    && toks[i].ty == TokenType::Space)
            &&& forall|i: int|
                0 <= i < toks.len() - 1 ==> !((#[trigger] toks[i + 1]).ty
                    == TokenType::Combinator && toks[i].ty == TokenType::Combinator)
        },
    decreases s.len() - c.start,
{
    if c.start < s.len() {
        lemma_scan_advances(s, c);
        lemma_scan_whole_run(s, c);
        lemma_contiguity(s, c);
        match scan_token(s, c) {
            Ok((t, next)) => {
                lemma_runs_collapse(s, next);
                match tokens_from(s, next) {
                    Ok(rest) => {
                        let toks = seq![t] + rest;
                        assert(toks[0] == t);
                        assert forall|i: int| 0 <= i < toks.len() implies whole_run(
                            s,
                            #[trigger] toks[i],
                        ) by {
                            if i > 0 {
                                assert(toks[i] == rest[i - 1]);
                            }
                        }
                        assert forall|i: int| 0 <= i < toks.len() - 1 implies {
                            &&& !((#[trigger] toks[i + 1]).ty == TokenType::Space && toks[i].ty
                                == TokenType::Space)
                            &&& !(toks[i + 1].ty == TokenType::Combinator && toks[i].ty
                                == TokenType::Combinator)
                        } by {
                            let a = toks[i];
                            let b = toks[i + 1];
                            assert(whole_run(s, a));
                            assert(whole_run(s, b));
                            assert(b.pos.0 == a.pos.1);
                        }
                    },
                    Err(_) => {},
                }
            },
            Err(_) => {},
        }
    }
}

} // verus!
