use vhdl_lexer::{next_token, Lexer, Token};

#[test]
fn scenario_line_comment_then_newline() {
    let mut lx = Lexer::new("-- a\n");
    assert_eq!(next_token(&mut lx), Some((Token::Comment, "-- a".to_string())));
    assert_eq!(next_token(&mut lx), Some((Token::Whitespace, "\n".to_string())));
    assert_eq!(next_token(&mut lx), None);
}

#[test]
fn scenario_char_literal() {
    let mut lx = Lexer::new("'x'");
    assert_eq!(
        next_token(&mut lx),
        Some((Token::CharacterLiteral('x'), "'x'".to_string()))
    );
    assert_eq!(next_token(&mut lx), None);
}

#[test]
fn scenario_underscores_split_identifiers() {
    let mut lx = Lexer::new("ab__cd");
    assert_eq!(
        next_token(&mut lx),
        Some((Token::Identifier("ab".to_string()), "ab".to_string()))
    );
    assert_eq!(next_token(&mut lx), Some((Token::Unknown, "_".to_string())));
    assert_eq!(next_token(&mut lx), Some((Token::Unknown, "_".to_string())));
    assert_eq!(
        next_token(&mut lx),
        Some((Token::Identifier("cd".to_string()), "cd".to_string()))
    );
    assert_eq!(next_token(&mut lx), None);
}

#[test]
fn scenario_extended_identifier_escape() {
    let mut lx = Lexer::new("\\a\\\\b\\");
    assert_eq!(
        next_token(&mut lx),
        Some((
            Token::Identifier("\\a\\b\\".to_string()),
            "\\a\\\\b\\".to_string()
        ))
    );
    assert_eq!(next_token(&mut lx), None);
}

#[test]
fn scenario_block_comment_first_close() {
    let mut lx = Lexer::new("/* a /* b */");
    assert_eq!(
        next_token(&mut lx),
        Some((Token::Comment, "/* a /* b */".to_string()))
    );
    assert_eq!(next_token(&mut lx), None);
}

#[test]
fn scenario_adjacent_char_literals() {
    let mut lx = Lexer::new("'8''I'");
    assert_eq!(
        next_token(&mut lx),
        Some((Token::CharacterLiteral('8'), "'8'".to_string()))
    );
    assert_eq!(
        next_token(&mut lx),
        Some((Token::CharacterLiteral('I'), "'I'".to_string()))
    );
    assert_eq!(next_token(&mut lx), None);
}

#[test]
fn round_trip_mixed_input() {
    let input = "entity e4 is -- top\n  port (clk: '1');/* body */\\ex\\\\t\\ __?\u{7}";
    let mut lx = Lexer::new(input);
    let mut rebuilt = String::new();
    while let Some((_token, lexeme)) = next_token(&mut lx) {
        rebuilt.push_str(&lexeme);
    }
    assert_eq!(rebuilt, input);
}

#[test]
fn termination_and_token_count() {
    let input = "a b\\c'd$%&\n/*";
    let chars = input.chars().count();
    let mut lx = Lexer::new(input);
    let mut steps = 0usize;
    while next_token(&mut lx).is_some() {
        steps += 1;
        assert!(steps <= chars);
    }
    assert_eq!(next_token(&mut lx), None);
}

#[test]
fn determinism_same_input_twice() {
    let input = "sig_a <= '1' after 5 ns; -- drive\n\\odd name\\";
    let mut first = Vec::new();
    let mut lx = Lexer::new(input);
    while let Some(pair) = next_token(&mut lx) {
        first.push(pair);
    }
    let mut second = Vec::new();
    let mut lx = Lexer::new(input);
    while let Some(pair) = next_token(&mut lx) {
        second.push(pair);
    }
    assert_eq!(first, second);
}

#[test]
fn maximal_munch_prefers_longest() {
    let mut lx = Lexer::new("abc");
    assert_eq!(
        next_token(&mut lx),
        Some((Token::Identifier("abc".to_string()), "abc".to_string()))
    );
    assert_eq!(next_token(&mut lx), None);

    let mut lx = Lexer::new("   \t\r\n  x");
    assert_eq!(
        next_token(&mut lx),
        Some((Token::Whitespace, "   \t\r\n  ".to_string()))
    );
    assert_eq!(
        next_token(&mut lx),
        Some((Token::Identifier("x".to_string()), "x".to_string()))
    );
}

#[test]
fn tie_prefers_earlier_rule() {
    // A single letter matches both the identifier rule and the fallback at
    // length one; the identifier rule stands earlier and wins.
    let mut lx = Lexer::new("a");
    assert_eq!(
        next_token(&mut lx),
        Some((Token::Identifier("a".to_string()), "a".to_string()))
    );

    // A single blank matches both the whitespace rule and the fallback.
    let mut lx = Lexer::new(" ");
    assert_eq!(next_token(&mut lx), Some((Token::Whitespace, " ".to_string())));
}

#[test]
fn forward_progress_on_unknown() {
    let mut lx = Lexer::new("_$_");
    assert_eq!(next_token(&mut lx), Some((Token::Unknown, "_".to_string())));
    assert_eq!(next_token(&mut lx), Some((Token::Unknown, "$".to_string())));
    assert_eq!(next_token(&mut lx), Some((Token::Unknown, "_".to_string())));
    assert_eq!(next_token(&mut lx), None);
}

#[test]
fn empty_input_is_exhausted() {
    let mut lx = Lexer::new("");
    assert_eq!(next_token(&mut lx), None);
    assert_eq!(next_token(&mut lx), None);
}

#[test]
fn unterminated_block_comment_degrades() {
    let mut lx = Lexer::new("/* abc");
    assert_eq!(next_token(&mut lx), Some((Token::Unknown, "/".to_string())));
    assert_eq!(next_token(&mut lx), Some((Token::Unknown, "*".to_string())));
    assert_eq!(next_token(&mut lx), Some((Token::Whitespace, " ".to_string())));
    assert_eq!(
        next_token(&mut lx),
        Some((Token::Identifier("abc".to_string()), "abc".to_string()))
    );
    assert_eq!(next_token(&mut lx), None);
}

#[test]
fn form_feed_does_not_end_line_comment() {
    let mut lx = Lexer::new("--a\u{000c}b\nx");
    assert_eq!(
        next_token(&mut lx),
        Some((Token::Comment, "--a\u{000c}b".to_string()))
    );
    assert_eq!(next_token(&mut lx), Some((Token::Whitespace, "\n".to_string())));
    assert_eq!(
        next_token(&mut lx),
        Some((Token::Identifier("x".to_string()), "x".to_string()))
    );
}

#[test]
fn vertical_tab_ends_line_comment() {
    let mut lx = Lexer::new("--a\u{000b}b");
    assert_eq!(next_token(&mut lx), Some((Token::Comment, "--a".to_string())));
    assert_eq!(next_token(&mut lx), Some((Token::Unknown, "\u{000b}".to_string())));
    assert_eq!(
        next_token(&mut lx),
        Some((Token::Identifier("b".to_string()), "b".to_string()))
    );
}

#[test]
fn quote_inside_char_literal() {
    let mut lx = Lexer::new("'''");
    assert_eq!(
        next_token(&mut lx),
        Some((Token::CharacterLiteral('\''), "'''".to_string()))
    );
    assert_eq!(next_token(&mut lx), None);
}

#[test]
fn shortest_extended_identifier() {
    // Two backslashes: an empty interior, opened and closed at once.
    let mut lx = Lexer::new("\\\\");
    assert_eq!(
        next_token(&mut lx),
        Some((Token::Identifier("\\".to_string()), "\\\\".to_string()))
    );
    assert_eq!(next_token(&mut lx), None);
}

#[test]
fn incomplete_char_literal_degrades() {
    let mut lx = Lexer::new("'a");
    assert_eq!(next_token(&mut lx), Some((Token::Unknown, "'".to_string())));
    assert_eq!(
        next_token(&mut lx),
        Some((Token::Identifier("a".to_string()), "a".to_string()))
    );
    assert_eq!(next_token(&mut lx), None);
}

#[test]
fn token_sequence_pull_interface() {
    // The token-only pull interface surfaces trivia and ends with None.
    let mut lx = Lexer::new("'a' x");
    assert_eq!(lx.next(), Some(Token::CharacterLiteral('a')));
    assert_eq!(lx.next(), Some(Token::Whitespace));
    assert_eq!(lx.next(), Some(Token::Identifier("x".to_string())));
    assert_eq!(lx.next(), None);
    assert_eq!(lx.next(), None);
}
