//! The tokenizer: turns source text into a stream of classified tokens with
//! source locations, and serves them through a cursor with unlimited bounded
//! lookahead.
//!
//! The whole input is classified up front into a vector of tokens ending in a
//! single end-of-input token, so `lookahead` is O(1) and trivially
//! non-destructive. The mathematical model of the stream is `token_stream`,
//! a specification-level tokenization of the text; the tokenizer's
//! well-formedness ties the vector it holds to that model.

use vstd::prelude::*;
use crate::location::Location;

verus! {

// ---------------------------------------------------------------------------
// Character classes
// ---------------------------------------------------------------------------

/// Whitespace characters of the style-sheet grammar.
pub open spec fn is_space_char(c: char) -> bool {
    c == ' ' || c == '\t' || c == '\n' || c == '\r' || c == '\u{0c}'
}

pub open spec fn is_digit_char(c: char) -> bool {
    '0' as u32 <= c as u32 && c as u32 <= '9' as u32
}

/// Characters that may begin an identifier.
pub open spec fn is_ident_start_char(c: char) -> bool {
    ||| 'a' as u32 <= c as u32 && c as u32 <= 'z' as u32
    ||| 'A' as u32 <= c as u32 && c as u32 <= 'Z' as u32
    ||| c == '_'
}

/// Characters that may continue an identifier.
pub open spec fn is_ident_char(c: char) -> bool {
    is_ident_start_char(c) || is_digit_char(c) || c == '-'
}

// ---------------------------------------------------------------------------
// Specification-level tokenization
// ---------------------------------------------------------------------------

/// Length of the maximal run of whitespace characters starting at `p`.
pub open spec fn space_run(text: Seq<char>, p: int) -> nat
    decreases text.len() - p when 0 <= p
{
    if p < text.len() && is_space_char(text[p]) {
        1 + space_run(text, p + 1)
    } else {
        0
    }
}

/// Length of the maximal run of identifier characters starting at `p`.
pub open spec fn ident_run(text: Seq<char>, p: int) -> nat
    decreases text.len() - p when 0 <= p
{
    if p < text.len() && is_ident_char(text[p]) {
        1 + ident_run(text, p + 1)
    } else {
        0
    }
}

/// Length of the maximal run of digit characters starting at `p`.
pub open spec fn digit_run(text: Seq<char>, p: int) -> nat
    decreases text.len() - p when 0 <= p
{
    if p < text.len() && is_digit_char(text[p]) {
        1 + digit_run(text, p + 1)
    } else {
        0
    }
}

/// Number of characters from `p` (the first character after the opening
/// `/*`) up to and including the closing `*/`, or to the end of the text
/// for an unterminated comment.
pub open spec fn comment_run(text: Seq<char>, p: int) -> nat
    decreases text.len() - p when 0 <= p
{
    if p >= text.len() {
        0
    } else if text[p] == '*' && p + 1 < text.len() && text[p + 1] == '/' {
        2
    } else {
        1 + comment_run(text, p + 1)
    }
}

/// True when the two characters at `p` open a comment.
pub open spec fn opens_comment(text: Seq<char>, p: int) -> bool {
    text[p] == '/' && p + 1 < text.len() && text[p + 1] == '*'
}

/// The classified kind of a token: the specification-level mirror of
/// `TokenType`, with sequences in place of vectors.
pub ghost enum TokenKind {
    Whitespace,
    Comment,
    Ident(Seq<char>),
    Number(Seq<char>),
    Delim(char),
    Eof,
}

/// A token of the model stream: a kind plus the offset of its first
/// character. A token's extent ends where the next token of the stream
/// begins; the end-of-input token begins at the text's length.
pub ghost struct TokenModel {
    pub kind: TokenKind,
    pub start: int,
}

/// The kind of the token that begins at position `p` of the text.
pub open spec fn kind_at(text: Seq<char>, p: int) -> TokenKind {
    let c = text[p];
    if is_space_char(c) {
        TokenKind::Whitespace
    } else if opens_comment(text, p) {
        TokenKind::Comment
    } else if is_ident_start_char(c) {
        TokenKind::Ident(text.subrange(p, p + ident_run(text, p)))
    } else if is_digit_char(c) {
        TokenKind::Number(text.subrange(p, p + digit_run(text, p)))
    } else {
        TokenKind::Delim(c)
    }
}

/// The width in characters of the token that begins at position `p`.
pub open spec fn width_at(text: Seq<char>, p: int) -> nat {
    let c = text[p];
    if is_space_char(c) {
        space_run(text, p)
    } else if opens_comment(text, p) {
        2 + comment_run(text, p + 2)
    } else if is_ident_start_char(c) {
        ident_run(text, p)
    } else if is_digit_char(c) {
        digit_run(text, p)
    } else {
        1
    }
}

/// The tokens of the text from position `p` onward, in source order,
/// without the trailing end-of-input token.
pub open spec fn model_tokens(text: Seq<char>, p: int) -> Seq<TokenModel>
    decreases text.len() - p when 0 <= p via model_tokens_dec
{
    if p >= text.len() {
        Seq::empty()
    } else {
        seq![TokenModel { kind: kind_at(text, p), start: p }]
            + model_tokens(text, p + width_at(text, p))
    }
}

/// Every token is at least one character wide and ends within the text,
/// so tokenization advances.
#[via_fn]
proof fn model_tokens_dec(text: Seq<char>, p: int) {
    if 0 <= p < text.len() {
        lemma_width_at_pos(text, p);
    }
}

/// A whitespace run stays within the text.
pub proof fn lemma_space_run_bound(text: Seq<char>, p: int)
    requires
        0 <= p <= text.len(),
    ensures
        p + space_run(text, p) <= text.len(),
    decreases text.len() - p,
{
    if p < text.len() && is_space_char(text[p]) {
        lemma_space_run_bound(text, p + 1);
    }
}

/// An identifier run stays within the text.
pub proof fn lemma_ident_run_bound(text: Seq<char>, p: int)
    requires
        0 <= p <= text.len(),
    ensures
        p + ident_run(text, p) <= text.len(),
    decreases text.len() - p,
{
    if p < text.len() && is_ident_char(text[p]) {
        lemma_ident_run_bound(text, p + 1);
    }
}

/// A digit run stays within the text.
pub proof fn lemma_digit_run_bound(text: Seq<char>, p: int)
    requires
        0 <= p <= text.len(),
    ensures
        p + digit_run(text, p) <= text.len(),
    decreases text.len() - p,
{
    if p < text.len() && is_digit_char(text[p]) {
        lemma_digit_run_bound(text, p + 1);
    }
}

/// A comment's interior and closing stay within the text.
pub proof fn lemma_comment_run_bound(text: Seq<char>, p: int)
    requires
        0 <= p <= text.len(),
    ensures
        p + comment_run(text, p) <= text.len(),
    decreases text.len() - p,
{
    if p < text.len() && !(text[p] == '*' && p + 1 < text.len() && text[p + 1] == '/') {
        lemma_comment_run_bound(text, p + 1);
    }
}

/// The token beginning at a position inside the text has positive width
/// and ends within the text.
pub proof fn lemma_width_at_pos(text: Seq<char>, p: int)
    requires
        0 <= p < text.len(),
    ensures
        1 <= width_at(text, p),
        p + width_at(text, p) <= text.len(),
{
    let c = text[p];
    if is_space_char(c) {
        assert(space_run(text, p) == 1 + space_run(text, p + 1));
        lemma_space_run_bound(text, p);
    } else if opens_comment(text, p) {
        lemma_comment_run_bound(text, p + 2);
    } else if is_ident_start_char(c) {
        assert(ident_run(text, p) == 1 + ident_run(text, p + 1));
        lemma_ident_run_bound(text, p);
    } else if is_digit_char(c) {
        assert(digit_run(text, p) == 1 + digit_run(text, p + 1));
        lemma_digit_run_bound(text, p);
    }
}

/// The complete token stream of a text: its tokens followed by the
/// end-of-input token, which begins just past the last character.
pub open spec fn token_stream(text: Seq<char>) -> Seq<TokenModel> {
    model_tokens(text, 0).push(TokenModel { kind: TokenKind::Eof, start: text.len() as int })
}

// ---------------------------------------------------------------------------
// Facts about the model stream
// ---------------------------------------------------------------------------

/// Every character of a whitespace run is whitespace, and the run is
/// maximal: the character just past it, if any, is not whitespace.
pub proof fn lemma_space_run_chars(text: Seq<char>, p: int)
    requires
        0 <= p <= text.len(),
    ensures
        forall|j: int| p <= j < p + space_run(text, p) ==> is_space_char(#[trigger] text[j]),
        p + space_run(text, p) == text.len() || !is_space_char(text[p + space_run(text, p)]),
    decreases text.len() - p,
{
    if p < text.len() && is_space_char(text[p]) {
        lemma_space_run_chars(text, p + 1);
    }
}

/// On a text of nothing but whitespace, the whitespace run from any
/// position reaches the end.
pub proof fn lemma_space_run_all(text: Seq<char>, p: int)
    requires
        0 <= p <= text.len(),
        forall|j: int| 0 <= j < text.len() ==> is_space_char(#[trigger] text[j]),
    ensures
        space_run(text, p) == text.len() - p,
    decreases text.len() - p,
{
    if p < text.len() {
        lemma_space_run_all(text, p + 1);
    }
}

/// The tokens of the text from `p` onward lie inside it, begin with the
/// classified token at their own start, and are contiguous: each ends
/// where the next begins, the last at the end of the text.
pub proof fn lemma_model_index(text: Seq<char>, p: int, k: int)
    requires
        0 <= p,
        0 <= k < model_tokens(text, p).len(),
    ensures
        ({
            let ts = model_tokens(text, p);
            let s = ts[k].start;
            &&& p <= s < text.len()
            &&& ts[k].kind == kind_at(text, s)
            &&& (k + 1 < ts.len() ==> ts[k + 1].start == s + width_at(text, s))
            &&& (k + 1 == ts.len() ==> s + width_at(text, s) == text.len())
        }),
    decreases k,
{
    let ts = model_tokens(text, p);
    assert(p < text.len());
    lemma_width_at_pos(text, p);
    let w = width_at(text, p) as int;
    let rest = model_tokens(text, p + w);
    assert(ts =~= seq![TokenModel { kind: kind_at(text, p), start: p }] + rest);
    if k == 0 {
        if ts.len() > 1 {
            assert(rest.len() > 0);
            assert(p + w < text.len());
            assert(rest[0] == TokenModel { kind: kind_at(text, p + w), start: p + w });
        } else {
            assert(rest.len() == 0);
            assert(p + w >= text.len());
        }
    } else {
        lemma_model_index(text, p + w, k - 1);
    }
}

/// The same, phrased over the whole token stream: a real (non-terminal)
/// token of a text's stream is the classified token at its start, and the
/// following stream entry begins exactly where it ends.
pub proof fn lemma_stream_facts(text: Seq<char>, k: int)
    requires
        0 <= k < token_stream(text).len() - 1,
    ensures
        ({
            let ts = token_stream(text);
            let s = ts[k].start;
            &&& 0 <= s < text.len()
            &&& ts[k].kind == kind_at(text, s)
            &&& ts[k + 1].start == s + width_at(text, s)
        }),
{
    lemma_model_index(text, 0, k);
}

// ---------------------------------------------------------------------------
// Executable tokens
// ---------------------------------------------------------------------------

/// A classified lexical unit. Identifier and number tokens carry their text.
#[derive(Debug, PartialEq, Eq)]
pub enum TokenType {
    Whitespace,
    Comment,
    Ident(Vec<char>),
    Number(Vec<char>),
    Delim(char),
    Eof,
}

impl View for TokenType {
    type V = TokenKind;

    open spec fn view(&self) -> TokenKind {
        match self {
            TokenType::Whitespace => TokenKind::Whitespace,
            TokenType::Comment => TokenKind::Comment,
            TokenType::Ident(w) => TokenKind::Ident(w@),
            TokenType::Number(w) => TokenKind::Number(w@),
            TokenType::Delim(c) => TokenKind::Delim(*c),
            TokenType::Eof => TokenKind::Eof,
        }
    }
}

/// A token together with the location of its first character.
#[derive(Debug, PartialEq, Eq)]
pub struct Token {
    pub token_type: TokenType,
    pub location: Location,
}

impl View for Token {
    type V = TokenModel;

    open spec fn view(&self) -> TokenModel {
        TokenModel { kind: self.token_type@, start: self.location.offset as int }
    }
}

/// The models of a sequence of executable tokens.
pub open spec fn views_of(ts: Seq<Token>) -> Seq<TokenModel> {
    ts.map_values(|t: Token| t@)
}

/// Appending a token appends its model.
proof fn lemma_views_push(ts: Seq<Token>, t: Token)
    ensures
        views_of(ts.push(t)) =~= views_of(ts).push(t@),
{
    assert forall|i: int| 0 <= i < ts.len() + 1 implies views_of(ts.push(t))[i] == views_of(
        ts,
    ).push(t@)[i] by {
        if i < ts.len() {
            assert(ts.push(t)[i] == ts[i]);
        } else {
            assert(ts.push(t)[i] == t);
        }
    }
}

// ---------------------------------------------------------------------------
// Executable character classification
// ---------------------------------------------------------------------------

fn char_is_space(c: char) -> (b: bool)
    ensures
        b == is_space_char(c),
{
    c == ' ' || c == '\t' || c == '\n' || c == '\r' || c == '\u{0c}'
}

fn char_is_digit(c: char) -> (b: bool)
    ensures
        b == is_digit_char(c),
{
    let u = c as u32;
    '0' as u32 <= u && u <= '9' as u32
}

fn char_is_ident_start(c: char) -> (b: bool)
    ensures
        b == is_ident_start_char(c),
{
    let u = c as u32;
    ('a' as u32 <= u && u <= 'z' as u32) || ('A' as u32 <= u && u <= 'Z' as u32) || c == '_'
}

fn char_is_ident(c: char) -> (b: bool)
    ensures
        b == is_ident_char(c),
{
    char_is_ident_start(c) || char_is_digit(c) || c == '-'
}

// ---------------------------------------------------------------------------
// Executable scanners
// ---------------------------------------------------------------------------

/// Position just past the whitespace run that starts at `p`.
fn scan_space(src: &Vec<char>, p: usize) -> (e: usize)
    requires
        p < src.len(),
        is_space_char(src[p as int]),
    ensures
        e == p + space_run(src@, p as int),
        e <= src.len(),
{
    let mut e: usize = p;
    while e < src.len() && char_is_space(src[e])
        invariant
            p <= e <= src.len(),
            space_run(src@, p as int) == (e - p) + space_run(src@, e as int),
        decreases src.len() - e,
    {
        assert(space_run(src@, e as int) == 1 + space_run(src@, e + 1));
        e = e + 1;
    }
    assert(space_run(src@, e as int) == 0);
    e
}

/// Position just past the identifier run that starts at `p`.
fn scan_ident(src: &Vec<char>, p: usize) -> (e: usize)
    requires
        p < src.len(),
    ensures
        e == p + ident_run(src@, p as int),
        e <= src.len(),
{
    let mut e: usize = p;
    while e < src.len() && char_is_ident(src[e])
        invariant
            p <= e <= src.len(),
            ident_run(src@, p as int) == (e - p) + ident_run(src@, e as int),
        decreases src.len() - e,
    {
        assert(ident_run(src@, e as int) == 1 + ident_run(src@, e + 1));
        e = e + 1;
    }
    assert(ident_run(src@, e as int) == 0);
    e
}

/// Position just past the digit run that starts at `p`.
fn scan_digits(src: &Vec<char>, p: usize) -> (e: usize)
    requires
        p < src.len(),
    ensures
        e == p + digit_run(src@, p as int),
        e <= src.len(),
{
    let mut e: usize = p;
    while e < src.len() && char_is_digit(src[e])
        invariant
            p <= e <= src.len(),
            digit_run(src@, p as int) == (e - p) + digit_run(src@, e as int),
        decreases src.len() - e,
    {
        assert(digit_run(src@, e as int) == 1 + digit_run(src@, e + 1));
        e = e + 1;
    }
    assert(digit_run(src@, e as int) == 0);
    e
}

/// Position just past the comment whose interior starts at `p` (the first
/// character after the opening `/*`).
fn scan_comment(src: &Vec<char>, p: usize) -> (e: usize)
    requires
        p <= src.len(),
    ensures
        e == p + comment_run(src@, p as int),
        e <= src.len(),
{
    let mut e: usize = p;
    loop
        invariant
            p <= e <= src.len(),
            comment_run(src@, p as int) == (e - p) + comment_run(src@, e as int),
        decreases src.len() - e,
    {
        if e >= src.len() {
            assert(comment_run(src@, e as int) == 0);
            return e;
        }
        if src[e] == '*' && e + 1 < src.len() && src[e + 1] == '/' {
            assert(comment_run(src@, e as int) == 2);
            return e + 2;
        }
        assert(comment_run(src@, e as int) == 1 + comment_run(src@, e + 1));
        e = e + 1;
    }
}

/// A copy of the characters `src[p..e]`.
fn copy_range(src: &Vec<char>, p: usize, e: usize) -> (w: Vec<char>)
    requires
        p <= e <= src.len(),
    ensures
        w@ == src@.subrange(p as int, e as int),
{
    let mut w: Vec<char> = Vec::new();
    let mut i: usize = p;
    while i < e
        invariant
            p <= i <= e <= src.len(),
            w@ =~= src@.subrange(p as int, i as int),
        decreases e - i,
    {
        w.push(src[i]);
        assert(w@ =~= src@.subrange(p as int, i + 1));
        i = i + 1;
    }
    assert(w@ =~= src@.subrange(p as int, e as int));
    w
}

/// A copy of a token, equal to the original in its model.
fn clone_token(t: &Token) -> (r: Token)
    ensures
        r@ == t@,
{
    let token_type = match &t.token_type {
        TokenType::Whitespace => TokenType::Whitespace,
        TokenType::Comment => TokenType::Comment,
        TokenType::Ident(w) => {
            let ww = copy_range(w, 0, w.len());
            assert(ww@ =~= w@);
            TokenType::Ident(ww)
        },
        TokenType::Number(w) => {
            let ww = copy_range(w, 0, w.len());
            assert(ww@ =~= w@);
            TokenType::Number(ww)
        },
        TokenType::Delim(c) => TokenType::Delim(*c),
        TokenType::Eof => TokenType::Eof,
    };
    assert(token_type@ == t.token_type@);
    Token { token_type, location: t.location }
}

// ---------------------------------------------------------------------------
// The tokenizer
// ---------------------------------------------------------------------------

/// Classifies the whole text into tokens matching `model_tokens`, without
/// the trailing end-of-input token.
fn tokenize(src: &Vec<char>) -> (toks: Vec<Token>)
    ensures
        views_of(toks@) == model_tokens(src@, 0),
{
    let mut toks: Vec<Token> = Vec::new();
    let mut p: usize = 0;
    while p < src.len()
        invariant
            p <= src.len(),
            views_of(toks@) + model_tokens(src@, p as int) =~= model_tokens(src@, 0),
        decreases src.len() - p,
    {
        let ghost p0 = p as int;
        let c = src[p];
        let start = Location::new(p);
        let token_type: TokenType;
        let e: usize;
        if char_is_space(c) {
            e = scan_space(src, p);
            token_type = TokenType::Whitespace;
        } else if c == '/' && p + 1 < src.len() && src[p + 1] == '*' {
            e = scan_comment(src, p + 2);
            token_type = TokenType::Comment;
        } else if char_is_ident_start(c) {
            e = scan_ident(src, p);
            token_type = TokenType::Ident(copy_range(src, p, e));
        } else if char_is_digit(c) {
            e = scan_digits(src, p);
            token_type = TokenType::Number(copy_range(src, p, e));
        } else {
            e = p + 1;
            token_type = TokenType::Delim(c);
        }
        let t = Token { token_type, location: start };
        assert(t@ == TokenModel { kind: kind_at(src@, p0), start: p0 });
        assert(e == p0 + width_at(src@, p0));
        proof {
            assert(model_tokens(src@, p0) =~= seq![t@] + model_tokens(src@, e as int));
            lemma_views_push(toks@, t);
            assert(views_of(toks@.push(t)) + model_tokens(src@, e as int)
                =~= views_of(toks@) + model_tokens(src@, p0));
        }
        toks.push(t);
        p = e;
    }
    assert(model_tokens(src@, p as int) =~= Seq::<TokenModel>::empty());
    assert(views_of(toks@) =~= model_tokens(src@, 0));
    toks
}

/// The tokenizer: owns the source text, its classified tokens, and the
/// cursor marking the next token to be consumed. Constructed once per
/// source text and borrowed exclusively for the duration of one parse.
pub struct Tokenizer {
    source: Vec<char>,
    tokens: Vec<Token>,
    cursor: usize,
    last_loc: Location,
}

impl Tokenizer {
    /// The source text being tokenized.
    pub closed spec fn src(self) -> Seq<char> {
        self.source@
    }

    /// The models of all tokens of the stream, ending in the end-of-input
    /// token.
    pub closed spec fn toks(self) -> Seq<TokenModel> {
        views_of(self.tokens@)
    }

    /// The index of the next token to be consumed.
    pub closed spec fn cur(self) -> int {
        self.cursor as int
    }

    /// The location of the most recently consumed token.
    pub closed spec fn last(self) -> Location {
        self.last_loc
    }

    /// Well-formedness: the held tokens are exactly the token stream of the
    /// held text, and the cursor lies within the stream.
    pub closed spec fn wf(self) -> bool {
        &&& views_of(self.tokens@) == token_stream(self.source@)
        &&& self.cursor < self.tokens@.len()
    }

    /// What well-formedness guarantees, for callers: the stream is the
    /// model tokenization of the source and the cursor is in range.
    pub proof fn lemma_wf_facts(self)
        requires
            self.wf(),
        ensures
            self.toks() == token_stream(self.src()),
            self.toks().len() >= 1,
            0 <= self.cur() < self.toks().len(),
            self.toks()[self.toks().len() - 1].kind == TokenKind::Eof,
    {
        assert(self.toks() =~= model_tokens(self.source@, 0).push(
            TokenModel { kind: TokenKind::Eof, start: self.source@.len() as int },
        ));
    }

    /// Builds a tokenizer over the given text, with the cursor at the first
    /// token.
    pub fn new(source: Vec<char>) -> (tk: Tokenizer)
        ensures
            tk.wf(),
            tk.src() == source@,
            tk.toks() == token_stream(source@),
            tk.cur() == 0,
            tk.last() == (Location { offset: 0 }),
    {
        let mut toks = tokenize(&source);
        let eof_loc = Location::new(source.len());
        let eof_token = Token { token_type: TokenType::Eof, location: eof_loc };
        proof {
            lemma_views_push(toks@, eof_token);
        }
        toks.push(eof_token);
        assert(views_of(toks@) =~= token_stream(source@));
        Tokenizer { source, tokens: toks, cursor: 0, last_loc: Location::new(0) }
    }

    /// The token `n` positions ahead of the cursor, without consuming:
    /// `lookahead(1)` is the next token to be consumed. Requests past the
    /// end of input return the end-of-input token. Takes the tokenizer
    /// immutably, so looking ahead can never disturb the stream.
    pub fn lookahead(&self, n: usize) -> (t: Token)
        requires
            self.wf(),
            n >= 1,
        ensures
            t@ == self.peek(n as int),
    {
        let idx = if n - 1 < self.tokens.len() - self.cursor - 1 {
            self.cursor + (n - 1)
        } else {
            self.tokens.len() - 1
        };
        clone_token(&self.tokens[idx])
    }

    /// The model of the token `n` positions ahead of the cursor, the
    /// end-of-input token when `n` reaches past the end.
    pub open spec fn peek(self, n: int) -> TokenModel {
        if self.cur() + n - 1 < self.toks().len() - 1 {
            self.toks()[self.cur() + n - 1]
        } else {
            self.toks()[self.toks().len() - 1]
        }
    }

    /// Consumes one token and returns it, advancing the cursor; at the end
    /// of input it returns the end-of-input token again and again rather
    /// than failing.
    pub fn consume_any(&mut self) -> (t: Token)
        requires
            old(self).wf(),
        ensures
            final(self).wf(),
            final(self).toks() == old(self).toks(),
            final(self).src() == old(self).src(),
            t@ == old(self).toks()[old(self).cur()],
            final(self).cur() == if old(self).cur() + 1 < old(self).toks().len() {
                old(self).cur() + 1
            } else {
                old(self).cur()
            },
            final(self).last() == (Location { offset: t@.start as usize }),
    {
        let t = clone_token(&self.tokens[self.cursor]);
        self.last_loc = t.location;
        let n = self.tokens.len();
        assert(self.cursor < n);
        if self.cursor + 1 < n {
            self.cursor = self.cursor + 1;
        }
        t
    }

    /// The location of the most recently consumed token, for error
    /// reporting; the start of the text before anything was consumed.
    pub fn current_location(&self) -> (loc: Location)
        ensures
            loc == self.last(),
    {
        self.last_loc
    }
}

} // verus!
