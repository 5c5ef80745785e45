use css3_parser::node::{Node, NodeType};
use css3_parser::parser::Css3;
use css3_parser::tokenizer::{TokenType, Tokenizer};

fn chars(s: &str) -> Vec<char> {
    s.chars().collect()
}

fn parser_for(s: &str) -> Css3 {
    Css3::new(Tokenizer::new(chars(s)))
}

fn combinator_value(node: &Node) -> &str {
    let NodeType::Combinator { value } = &node.node_type;
    value.as_str()
}

#[test]
fn plus_parses_to_plus() {
    let mut p = parser_for("+");
    let node = p.parse_combinator().unwrap();
    assert_eq!(combinator_value(&node), "+");
    assert_eq!(node.location.offset, 0);
}

#[test]
fn greater_than_parses_to_greater_than() {
    let mut p = parser_for(">");
    let node = p.parse_combinator().unwrap();
    assert_eq!(combinator_value(&node), ">");
    assert_eq!(node.location.offset, 0);
}

#[test]
fn tilde_parses_to_tilde() {
    let mut p = parser_for("~");
    let node = p.parse_combinator().unwrap();
    assert_eq!(combinator_value(&node), "~");
    assert_eq!(node.location.offset, 0);
}

#[test]
fn any_whitespace_parses_to_one_space() {
    for src in [" ", "   \t \r\n ", "\u{0c}"] {
        let mut p = parser_for(src);
        let node = p.parse_combinator().unwrap();
        assert_eq!(combinator_value(&node), " ");
        assert_eq!(node.location.offset, 0);
    }
}

#[test]
fn whitespace_then_comments_still_parse_to_one_space() {
    let mut p = parser_for("  /*noise*/ /*more*/");
    let node = p.parse_combinator().unwrap();
    assert_eq!(combinator_value(&node), " ");
    let next = p.consume_any();
    assert_eq!(next.token_type, TokenType::Eof);
}

#[test]
fn deep_parses_and_consumes_all_three_tokens() {
    let mut p = parser_for("/deep/ h1");
    let node = p.parse_combinator().unwrap();
    assert_eq!(combinator_value(&node), "/deep/");
    assert_eq!(node.location.offset, 0);
    let next = p.consume_any();
    assert_eq!(next.token_type, TokenType::Ident("h1".chars().collect()));
    assert_eq!(next.location.offset, 7);
}

#[test]
fn slash_with_wrong_identifier_fails_on_the_second_token() {
    let mut p = parser_for("/x/");
    let err = p.parse_combinator().unwrap_err();
    assert_eq!(err.message, "Unexpected token");
    assert_eq!(err.found.token_type, TokenType::Ident("x".chars().collect()));
    assert_eq!(err.found.location.offset, 1);
    assert_eq!(err.location.offset, 0);
}

#[test]
fn deep_without_closing_slash_fails() {
    let mut p = parser_for("/deep");
    let err = p.parse_combinator().unwrap_err();
    assert_eq!(err.message, "Unexpected token");
    assert_eq!(err.found.token_type, TokenType::Ident("deep".chars().collect()));
    assert_eq!(err.found.location.offset, 1);
}

#[test]
fn lone_slash_fails_with_eof_as_the_offending_token() {
    let mut p = parser_for("/");
    let err = p.parse_combinator().unwrap_err();
    assert_eq!(err.found.token_type, TokenType::Eof);
    assert_eq!(err.found.location.offset, 1);
    assert_eq!(err.location.offset, 0);
}

#[test]
fn non_combinator_tokens_fail_at_their_start() {
    let cases: Vec<(&str, TokenType, usize)> = vec![
        ("x", TokenType::Ident("x".chars().collect()), 0),
        ("42", TokenType::Number("42".chars().collect()), 0),
        ("/*c*/", TokenType::Comment, 0),
        (",", TokenType::Delim(','), 0),
        ("", TokenType::Eof, 0),
    ];
    for (src, tt, off) in cases {
        let mut p = parser_for(src);
        let err = p.parse_combinator().unwrap_err();
        assert_eq!(err.message, "Unexpected token");
        assert_eq!(err.found.token_type, tt);
        assert_eq!(err.found.location.offset, off);
        assert_eq!(err.location.offset, off);
    }
}

#[test]
fn trailing_trivia_is_absorbed_before_the_next_production() {
    let mut p = parser_for("+ /*c*/ h1");
    let node = p.parse_combinator().unwrap();
    assert_eq!(combinator_value(&node), "+");
    let next = p.consume_any();
    assert_eq!(next.token_type, TokenType::Ident("h1".chars().collect()));
    assert_eq!(next.location.offset, 8);
}

#[test]
fn consume_whitespace_comments_skips_only_trivia() {
    let mut p = parser_for(" /*a*/ /*b*/>");
    p.consume_whitespace_comments();
    let next = p.consume_any();
    assert_eq!(next.token_type, TokenType::Delim('>'));
    assert_eq!(next.location.offset, 12);
}

#[test]
fn reparsing_the_spanned_slice_gives_an_equal_node() {
    let sources = ["/deep/>rest", "+>x", "  \t+", "~"];
    let widths = [6, 1, 3, 1];
    for (src, width) in sources.iter().zip(widths.iter()) {
        let mut p = parser_for(src);
        let node = p.parse_combinator().unwrap();
        let start = node.location.offset;
        let slice: String = src.chars().skip(start).take(*width).collect();
        let mut again = parser_for(&slice);
        let renode = again.parse_combinator().unwrap();
        assert_eq!(renode, node);
    }
}
