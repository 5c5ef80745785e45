use css3_parser::tokenizer::{Token, TokenType, Tokenizer};

fn chars(s: &str) -> Vec<char> {
    s.chars().collect()
}

fn ident(s: &str) -> TokenType {
    TokenType::Ident(s.chars().collect())
}

fn number(s: &str) -> TokenType {
    TokenType::Number(s.chars().collect())
}

#[test]
fn classifies_every_token_kind_with_locations() {
    let mut tk = Tokenizer::new(chars("ab12-c 123 /*x*/!"));
    let expected: Vec<(TokenType, usize)> = vec![
        (ident("ab12-c"), 0),
        (TokenType::Whitespace, 6),
        (number("123"), 7),
        (TokenType::Whitespace, 10),
        (TokenType::Comment, 11),
        (TokenType::Delim('!'), 16),
        (TokenType::Eof, 17),
    ];
    for (tt, off) in expected {
        let t = tk.consume_any();
        assert_eq!(t.token_type, tt);
        assert_eq!(t.location.offset, off);
    }
}

#[test]
fn whitespace_is_one_maximal_run() {
    let mut tk = Tokenizer::new(chars(" \t\r\n\u{0c}x"));
    let t = tk.consume_any();
    assert_eq!(t.token_type, TokenType::Whitespace);
    assert_eq!(t.location.offset, 0);
    let t = tk.consume_any();
    assert_eq!(t.token_type, ident("x"));
    assert_eq!(t.location.offset, 5);
}

#[test]
fn unterminated_comment_runs_to_end_of_input() {
    let mut tk = Tokenizer::new(chars("/*abc"));
    let t = tk.consume_any();
    assert_eq!(t.token_type, TokenType::Comment);
    assert_eq!(t.location.offset, 0);
    let t = tk.consume_any();
    assert_eq!(t.token_type, TokenType::Eof);
    assert_eq!(t.location.offset, 5);
}

#[test]
fn slash_without_star_is_a_delimiter() {
    let mut tk = Tokenizer::new(chars("/d"));
    assert_eq!(tk.consume_any().token_type, TokenType::Delim('/'));
    assert_eq!(tk.consume_any().token_type, ident("d"));
}

#[test]
fn eof_token_is_returned_again_and_again() {
    let mut tk = Tokenizer::new(chars(""));
    for _ in 0..3 {
        let t = tk.consume_any();
        assert_eq!(t.token_type, TokenType::Eof);
        assert_eq!(t.location.offset, 0);
    }
}

#[test]
fn lookahead_is_non_destructive() {
    let tk = Tokenizer::new(chars("+ h1"));
    let first: Token = tk.lookahead(1);
    let second: Token = tk.lookahead(1);
    assert_eq!(first, second);
    let third: Token = tk.lookahead(2);
    let fourth: Token = tk.lookahead(2);
    assert_eq!(third, fourth);
    assert_ne!(first, third);
}

#[test]
fn lookahead_past_end_yields_eof() {
    let tk = Tokenizer::new(chars("+"));
    assert_eq!(tk.lookahead(1).token_type, TokenType::Delim('+'));
    assert_eq!(tk.lookahead(2).token_type, TokenType::Eof);
    assert_eq!(tk.lookahead(99).token_type, TokenType::Eof);
}

#[test]
fn current_location_tracks_the_last_consumed_token() {
    let mut tk = Tokenizer::new(chars("ab +"));
    assert_eq!(tk.current_location().offset, 0);
    tk.consume_any();
    assert_eq!(tk.current_location().offset, 0);
    tk.consume_any();
    assert_eq!(tk.current_location().offset, 2);
    tk.consume_any();
    assert_eq!(tk.current_location().offset, 3);
}
