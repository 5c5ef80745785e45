//! The round-trip law of the combinator production: re-tokenizing exactly
//! the slice of source text that a successfully parsed combinator spans,
//! and re-running the production at its start, yields the same combinator
//! value.

use vstd::prelude::*;
use crate::parser::{combinator_value_at, combinator_width, deep_ident, deep_text};
use crate::tokenizer::{
    ident_run, is_digit_char, is_ident_start_char, is_space_char, kind_at, lemma_space_run_all,
    lemma_space_run_chars, lemma_stream_facts, lemma_width_at_pos, model_tokens, opens_comment,
    space_run, token_stream, width_at, TokenKind, TokenModel,
};

verus! {

/// The concrete tokenization of the text `/deep/`: a `/` delimiter, the
/// identifier `deep`, a second `/` delimiter, then end of input; parsed as
/// a combinator it yields exactly that text.
proof fn lemma_deep_text_combinator()
    ensures
        combinator_value_at(token_stream(deep_text()), 0) == Some(deep_text()),
{
    let t = deep_text();
    assert(t.len() == 6);
    assert(t[0] == '/' && t[1] == 'd' && t[2] == 'e' && t[3] == 'e' && t[4] == 'p' && t[5]
        == '/');
    assert(ident_run(t, 6) == 0);
    assert(ident_run(t, 5) == 0);
    assert(ident_run(t, 4) == 1);
    assert(ident_run(t, 3) == 2);
    assert(ident_run(t, 2) == 3);
    assert(ident_run(t, 1) == 4);
    assert(t.subrange(1, 5) =~= deep_ident());
    assert(kind_at(t, 0) == TokenKind::Delim('/'));
    assert(width_at(t, 0) == 1);
    assert(kind_at(t, 1) == TokenKind::Ident(deep_ident()));
    assert(width_at(t, 1) == 4);
    assert(kind_at(t, 5) == TokenKind::Delim('/'));
    assert(width_at(t, 5) == 1);
    assert(model_tokens(t, 6) =~= Seq::<TokenModel>::empty());
    assert(model_tokens(t, 5) =~= seq![TokenModel { kind: TokenKind::Delim('/'), start: 5 }]);
    assert(model_tokens(t, 1) =~= seq![
        TokenModel { kind: TokenKind::Ident(deep_ident()), start: 1 },
        TokenModel { kind: TokenKind::Delim('/'), start: 5 },
    ]);
    assert(model_tokens(t, 0) =~= seq![
        TokenModel { kind: TokenKind::Delim('/'), start: 0 },
        TokenModel { kind: TokenKind::Ident(deep_ident()), start: 1 },
        TokenModel { kind: TokenKind::Delim('/'), start: 5 },
    ]);
    assert(token_stream(t) =~= seq![
        TokenModel { kind: TokenKind::Delim('/'), start: 0 },
        TokenModel { kind: TokenKind::Ident(deep_ident()), start: 1 },
        TokenModel { kind: TokenKind::Delim('/'), start: 5 },
        TokenModel { kind: TokenKind::Eof, start: 6 },
    ]);
}

/// Round trip: where a combinator production succeeds on a text's token
/// stream, the slice of the text from the start of its first consumed
/// token to the end of its last (trailing trivia excluded) re-tokenizes
/// to a stream on which the production succeeds again at the start, with
/// the same combinator value.
pub proof fn lemma_combinator_round_trip(text: Seq<char>, i: int)
    requires
        0 <= i < token_stream(text).len(),
        combinator_value_at(token_stream(text), i) is Some,
    ensures
        ({
            let toks = token_stream(text);
            let a = toks[i].start;
            let b = toks[i + combinator_width(toks, i)].start;
            &&& 0 <= a <= b <= text.len()
            &&& combinator_value_at(token_stream(text.subrange(a, b)), 0)
                == combinator_value_at(toks, i)
        }),
{
    let toks = token_stream(text);
    let n = toks.len();
    assert(toks[n - 1].kind == TokenKind::Eof);
    assert(i < n - 1) by {
        if i == n - 1 {
            assert(combinator_value_at(toks, i) is None);
        }
    }
    lemma_stream_facts(text, i);
    let a = toks[i].start;
    match toks[i].kind {
        TokenKind::Whitespace => {
            let w = space_run(text, a) as int;
            assert(width_at(text, a) == space_run(text, a));
            assert(toks[i + 1].start == a + w);
            lemma_width_at_pos(text, a);
            let b = a + w;
            lemma_space_run_chars(text, a);
            assert(space_run(text, a) == 1 + space_run(text, a + 1));
            let s = text.subrange(a, b);
            assert(forall|j: int| 0 <= j < s.len() ==> is_space_char(#[trigger] s[j]) == is_space_char(
                text[a + j],
            ));
            lemma_space_run_all(s, 0);
            assert(kind_at(s, 0) == TokenKind::Whitespace);
            assert(width_at(s, 0) == s.len());
            assert(model_tokens(s, s.len() as int) =~= Seq::<TokenModel>::empty());
            assert(model_tokens(s, 0) =~= seq![TokenModel { kind: TokenKind::Whitespace, start: 0 }]);
            assert(token_stream(s)[0].kind == TokenKind::Whitespace);
            assert(combinator_value_at(token_stream(s), 0) == Some(seq![' ']));
        },
        TokenKind::Delim(c) => {
            if c == '+' || c == '>' || c == '~' {
                assert(width_at(text, a) == 1);
                let b = a + 1;
                assert(toks[i + 1].start == b);
                let s = text.subrange(a, b);
                assert(s.len() == 1 && s[0] == c);
                assert(!is_space_char(c) && !is_ident_start_char(c) && !is_digit_char(c));
                assert(!opens_comment(s, 0));
                assert(kind_at(s, 0) == TokenKind::Delim(c));
                assert(width_at(s, 0) == 1);
                assert(model_tokens(s, 1) =~= Seq::<TokenModel>::empty());
                assert(model_tokens(s, 0) =~= seq![TokenModel { kind: TokenKind::Delim(c), start: 0 }]);
                assert(token_stream(s)[0].kind == TokenKind::Delim(c));
                assert(combinator_value_at(token_stream(s), 0) == Some(seq![c]));
            } else {
                assert(c == '/');
                assert(toks[i + 1].kind == TokenKind::Ident(deep_ident()));
                assert(toks[i + 2].kind == TokenKind::Delim('/'));
                assert(text[a] == '/');
                assert(width_at(text, a) == 1);
                assert(toks[i + 1].start == a + 1);
                assert(i + 1 < n - 1) by {
                    if i + 1 == n - 1 {
                        assert(toks[i + 1].kind == TokenKind::Eof);
                    }
                }
                lemma_stream_facts(text, i + 1);
                crate::tokenizer::lemma_ident_run_bound(text, a + 1);
                let run = ident_run(text, a + 1) as int;
                assert(kind_at(text, a + 1) == TokenKind::Ident(
                    text.subrange(a + 1, a + 1 + run),
                ));
                assert(text.subrange(a + 1, a + 1 + run) == deep_ident());
                assert(run == 4) by {
                    assert(text.subrange(a + 1, a + 1 + run).len() == deep_ident().len());
                }
                assert(text[a + 1] == 'd' && text[a + 2] == 'e' && text[a + 3] == 'e' && text[a
                    + 4] == 'p') by {
                    assert(deep_ident()[0] == 'd' && deep_ident()[1] == 'e' && deep_ident()[2]
                        == 'e' && deep_ident()[3] == 'p');
                    assert(text.subrange(a + 1, a + 5)[0] == text[a + 1]);
                    assert(text.subrange(a + 1, a + 5)[1] == text[a + 2]);
                    assert(text.subrange(a + 1, a + 5)[2] == text[a + 3]);
                    assert(text.subrange(a + 1, a + 5)[3] == text[a + 4]);
                }
                assert(width_at(text, a + 1) == 4);
                assert(toks[i + 2].start == a + 5);
                assert(i + 2 < n - 1) by {
                    if i + 2 == n - 1 {
                        assert(toks[i + 2].kind == TokenKind::Eof);
                    }
                }
                lemma_stream_facts(text, i + 2);
                assert(text[a + 5] == '/');
                assert(width_at(text, a + 5) == 1);
                assert(toks[i + 3].start == a + 6);
                assert(combinator_width(toks, i) == 3);
                let b = a + 6;
                assert(b <= text.len());
                let s = text.subrange(a, b);
                assert(s =~= deep_text());
                lemma_deep_text_combinator();
                assert(combinator_value_at(toks, i) == Some(deep_text()));
            }
        },
        _ => {
            assert(combinator_value_at(toks, i) is None);
        },
    }
}

} // verus!

