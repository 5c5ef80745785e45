//! The recursive-descent parser. `parse_combinator` is the production for
//! selector combinators: it classifies one token (or, for `/deep/`, a short
//! lookahead window) into a combinator node, absorbs trailing whitespace and
//! comments, and fails with a located error on anything else.

use vstd::prelude::*;
use crate::error::Error;
use crate::location::Location;
use crate::node::{Node, NodeType};
use crate::tokenizer::{Token, TokenKind, TokenModel, TokenType, Tokenizer};

verus! {

/// Whitespace and comment tokens are trivia: productions that do not give
/// them meaning skip them explicitly.
pub open spec fn is_trivia(k: TokenKind) -> bool {
    k == TokenKind::Whitespace || k == TokenKind::Comment
}

/// The first position at or after `i` whose token is not trivia.
pub open spec fn skip_trivia(toks: Seq<TokenModel>, i: int) -> int
    decreases toks.len() - i
{
    if 0 <= i < toks.len() && is_trivia(toks[i].kind) {
        skip_trivia(toks, i + 1)
    } else {
        i
    }
}

/// The characters of the identifier of the `/deep/` combinator.
pub open spec fn deep_ident() -> Seq<char> {
    seq!['d', 'e', 'e', 'p']
}

/// The canonical text of the `/deep/` combinator.
pub open spec fn deep_text() -> Seq<char> {
    seq!['/', 'd', 'e', 'e', 'p', '/']
}

/// What a combinator production finds at position `i` of a token stream:
/// the canonical text of the combinator that begins there, or nothing when
/// the tokens at `i` form no combinator. Whitespace is itself a combinator
/// (the descendant combinator, canonically one space); `+`, `>` and `~`
/// stand for themselves; `/` begins a combinator exactly when the
/// identifier `deep` and a second `/` follow.
pub open spec fn combinator_value_at(toks: Seq<TokenModel>, i: int) -> Option<Seq<char>> {
    match toks[i].kind {
        TokenKind::Whitespace => Some(seq![' ']),
        TokenKind::Delim(c) => if c == '+' || c == '>' || c == '~' {
            Some(seq![c])
        } else if c == '/' && toks[i + 1].kind == TokenKind::Ident(deep_ident())
            && toks[i + 2].kind == TokenKind::Delim('/') {
            Some(deep_text())
        } else {
            None
        },
        _ => None,
    }
}

/// How many tokens a successful combinator production consumes before it
/// absorbs trailing trivia: three for `/deep/`, one otherwise.
pub open spec fn combinator_width(toks: Seq<TokenModel>, i: int) -> int {
    if toks[i].kind == TokenKind::Delim('/') {
        3
    } else {
        1
    }
}

/// The index of the token a failing combinator production reports: after a
/// lone `/` the mismatched token one past it, otherwise the token at `i`
/// itself.
pub open spec fn offending_index(toks: Seq<TokenModel>, i: int) -> int {
    if toks[i].kind == TokenKind::Delim('/') {
        i + 1
    } else {
        i
    }
}

/// A token whose kind is neither whitespace nor one of the delimiters
/// `+`, `>`, `~`, `/` begins no combinator: the production fails on it,
/// and by the contract of `parse_combinator` the error it returns carries
/// that token and the location of its start.
pub proof fn lemma_non_combinator_kind_fails(toks: Seq<TokenModel>, i: int)
    requires
        toks[i].kind != TokenKind::Whitespace,
        toks[i].kind != TokenKind::Delim('+'),
        toks[i].kind != TokenKind::Delim('>'),
        toks[i].kind != TokenKind::Delim('~'),
        toks[i].kind != TokenKind::Delim('/'),
    ensures
        combinator_value_at(toks, i) is None,
{
}

/// A whitespace token always parses to the descendant combinator, whose
/// value is exactly one space character, however much literal whitespace
/// the token covers.
pub proof fn lemma_whitespace_is_one_space(toks: Seq<TokenModel>, i: int)
    requires
        toks[i].kind == TokenKind::Whitespace,
    ensures
        combinator_value_at(toks, i) == Some(seq![' ']),
{
}

/// Skipping trivia lands on the first token that is not whitespace or a
/// comment, and skips nothing else: every token passed over was trivia.
/// With the contract of `parse_combinator`, the stream handed to the next
/// production therefore never begins with leftover trailing trivia.
pub proof fn lemma_skip_trivia_lands_on_solid(toks: Seq<TokenModel>, i: int)
    requires
        0 <= i <= toks.len(),
    ensures
        i <= skip_trivia(toks, i) <= toks.len(),
        skip_trivia(toks, i) < toks.len() ==> !is_trivia(toks[skip_trivia(toks, i)].kind),
        forall|j: int| i <= j < skip_trivia(toks, i) ==> is_trivia(#[trigger] toks[j].kind),
    decreases toks.len() - i,
{
    if i < toks.len() && is_trivia(toks[i].kind) {
        lemma_skip_trivia_lands_on_solid(toks, i + 1);
    }
}

/// True exactly when `w` spells `deep`.
fn ident_is_deep(w: &Vec<char>) -> (r: bool)
    ensures
        r == (w@ == deep_ident()),
{
    let r = w.len() == 4 && w[0] == 'd' && w[1] == 'e' && w[2] == 'e' && w[3] == 'p';
    proof {
        if r {
            assert(w@ =~= deep_ident());
        } else if w@ == deep_ident() {
            assert(w@.len() == 4);
            assert(w@[0] == 'd' && w@[1] == 'e' && w@[2] == 'e' && w@[3] == 'p');
            assert(false);
        }
    }
    r
}

/// The parser: owns the token stream of one source text for the duration
/// of one parse. Each grammar production is a method that consumes the
/// tokens of its production and returns a node, or a located error.
pub struct Css3 {
    pub tokenizer: Tokenizer,
}

impl Css3 {
    pub fn new(tokenizer: Tokenizer) -> (p: Css3)
        ensures
            p.tokenizer == tokenizer,
    {
        Css3 { tokenizer }
    }

    /// Consumes and returns the next token; at the end of input, the
    /// end-of-input token.
    pub fn consume_any(&mut self) -> (t: Token)
        requires
            old(self).tokenizer.wf(),
        ensures
            final(self).tokenizer.wf(),
            final(self).tokenizer.toks() == old(self).tokenizer.toks(),
            final(self).tokenizer.src() == old(self).tokenizer.src(),
            t@ == old(self).tokenizer.toks()[old(self).tokenizer.cur()],
            final(self).tokenizer.cur() == if old(self).tokenizer.cur() + 1
                < old(self).tokenizer.toks().len() {
                old(self).tokenizer.cur() + 1
            } else {
                old(self).tokenizer.cur()
            },
            final(self).tokenizer.last() == (Location { offset: t@.start as usize }),
    {
        self.tokenizer.consume_any()
    }

    /// Consumes every whitespace and comment token under the cursor,
    /// leaving the cursor on the first token that is not trivia.
    pub fn consume_whitespace_comments(&mut self)
        requires
            old(self).tokenizer.wf(),
        ensures
            final(self).tokenizer.wf(),
            final(self).tokenizer.toks() == old(self).tokenizer.toks(),
            final(self).tokenizer.src() == old(self).tokenizer.src(),
            final(self).tokenizer.cur() == skip_trivia(
                old(self).tokenizer.toks(),
                old(self).tokenizer.cur(),
            ),
    {
        proof {
            self.tokenizer.lemma_wf_facts();
        }
        loop
            invariant
                self.tokenizer.wf(),
                self.tokenizer.toks() == old(self).tokenizer.toks(),
                self.tokenizer.src() == old(self).tokenizer.src(),
                skip_trivia(self.tokenizer.toks(), self.tokenizer.cur())
                    == skip_trivia(old(self).tokenizer.toks(), old(self).tokenizer.cur()),
            ensures
                self.tokenizer.wf(),
                self.tokenizer.toks() == old(self).tokenizer.toks(),
                self.tokenizer.src() == old(self).tokenizer.src(),
                self.tokenizer.cur() == skip_trivia(
                    old(self).tokenizer.toks(),
                    old(self).tokenizer.cur(),
                ),
            decreases self.tokenizer.toks().len() - self.tokenizer.cur(),
        {
            proof {
                self.tokenizer.lemma_wf_facts();
            }
            let t = self.tokenizer.lookahead(1);
            let trivia = match &t.token_type {
                TokenType::Whitespace => true,
                TokenType::Comment => true,
                _ => false,
            };
            if !trivia {
                assert(skip_trivia(self.tokenizer.toks(), self.tokenizer.cur())
                    == self.tokenizer.cur());
                break;
            }
            let ghost cur0 = self.tokenizer.cur();
            assert(is_trivia(self.tokenizer.toks()[cur0].kind));
            assert(cur0 < self.tokenizer.toks().len() - 1);
            self.tokenizer.consume_any();
            assert(skip_trivia(self.tokenizer.toks(), cur0)
                == skip_trivia(self.tokenizer.toks(), cur0 + 1));
        }
    }

    /// Parses one combinator. Consumes the token under the cursor; a
    /// whitespace token is the descendant combinator (canonically one
    /// space), `+`, `>` and `~` stand for themselves, and a `/` is accepted
    /// exactly when the identifier `deep` and a closing `/` follow, all
    /// three tokens then being consumed. Trailing whitespace and comments
    /// are absorbed. On any other token the production fails with an
    /// unexpected-token error carrying the offending token and the location
    /// of the token the production began with.
    pub fn parse_combinator(&mut self) -> (res: Result<Node, Error>)
        requires
            old(self).tokenizer.wf(),
        ensures
            final(self).tokenizer.wf(),
            final(self).tokenizer.toks() == old(self).tokenizer.toks(),
            final(self).tokenizer.src() == old(self).tokenizer.src(),
            ({
                let toks = old(self).tokenizer.toks();
                let i = old(self).tokenizer.cur();
                match res {
                    Ok(node) => {
                        &&& combinator_value_at(toks, i) is Some
                        &&& (node.node_type matches NodeType::Combinator { value }
                            && Some(value@) == combinator_value_at(toks, i))
                        &&& node.location == (Location { offset: toks[i].start as usize })
                        &&& final(self).tokenizer.cur() == skip_trivia(toks, i + combinator_width(toks, i))
                    },
                    Err(e) => {
                        &&& combinator_value_at(toks, i) is None
                        &&& e.found@ == toks[offending_index(toks, i)]
                        &&& e.location == (Location { offset: toks[i].start as usize })
                        &&& e.message@ == "Unexpected token"@
                        &&& final(self).tokenizer.cur() == if i + 1 < toks.len() { i + 1 } else { i }
                    },
                }
            }),
    {
        proof {
            self.tokenizer.lemma_wf_facts();
        }
        let ghost toks = self.tokenizer.toks();
        let ghost i = self.tokenizer.cur();
        let t = self.consume_any();
        let loc = t.location;
        match t.token_type {
            TokenType::Whitespace => {
                let value = String::from_str(" ");
                proof {
                    reveal_strlit(" ");
                    assert(value@ =~= seq![' ']);
                }
                self.consume_whitespace_comments();
                Ok(Node::new(NodeType::Combinator { value }, loc))
            },
            TokenType::Delim(c) => {
                if c == '+' || c == '>' || c == '~' {
                    let value = if c == '+' {
                        String::from_str("+")
                    } else if c == '>' {
                        String::from_str(">")
                    } else {
                        String::from_str("~")
                    };
                    proof {
                        reveal_strlit("+");
                        reveal_strlit(">");
                        reveal_strlit("~");
                        assert(value@ =~= seq![c]);
                    }
                    self.consume_whitespace_comments();
                    Ok(Node::new(NodeType::Combinator { value }, loc))
                } else if c == '/' {
                    proof {
                        self.tokenizer.lemma_wf_facts();
                    }
                    let tn1 = self.tokenizer.lookahead(1);
                    let tn2 = self.tokenizer.lookahead(2);
                    assert(tn1@ == toks[i + 1]);
                    let deep_ok = match (&tn1.token_type, &tn2.token_type) {
                        (TokenType::Ident(w), TokenType::Delim(s)) => *s == '/' && ident_is_deep(w),
                        _ => false,
                    };
                    if deep_ok {
                        assert(toks[i + 1].kind == TokenKind::Ident(deep_ident()));
                        assert(toks[i + 2].kind == TokenKind::Delim('/'));
                        self.consume_any();
                        self.consume_any();
                        assert(self.tokenizer.cur() == i + 3);
                        let value = String::from_str("/deep/");
                        proof {
                            reveal_strlit("/deep/");
                            assert(value@ =~= deep_text());
                        }
                        self.consume_whitespace_comments();
                        Ok(Node::new(NodeType::Combinator { value }, loc))
                    } else {
                        proof {
                            if toks[i + 1].kind == TokenKind::Ident(deep_ident())
                                && toks[i + 2].kind == TokenKind::Delim('/') {
                                assert(tn2@ == toks[i + 2]);
                                assert(false);
                            }
                        }
                        let location = self.tokenizer.current_location();
                        Err(Error::new(String::from_str("Unexpected token"), tn1, location))
                    }
                } else {
                    let location = self.tokenizer.current_location();
                    let found = Token { token_type: TokenType::Delim(c), location: loc };
                    Err(Error::new(String::from_str("Unexpected token"), found, location))
                }
            },
            tt => {
                let location = self.tokenizer.current_location();
                let found = Token { token_type: tt, location: loc };
                Err(Error::new(String::from_str("Unexpected token"), found, location))
            },
        }
    }
}

} // verus!
