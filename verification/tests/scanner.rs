use lox_scanner::err_report::{Diagnostic, ErrorKind};
use lox_scanner::scanner::Scanner;
use lox_scanner::token::{Token, TokenType};

fn tok(kind: TokenType, lexeme: &str, line: usize) -> Token {
    Token::new(kind, lexeme.to_string()).at_line(line)
}

fn scan(src: &str) -> (Vec<Token>, Vec<Diagnostic>) {
    Scanner::new(src.to_string()).scan()
}

#[test]
fn esc_code() {
    let mut scanner = Scanner::new("".to_string());
    assert_eq!(scanner.eat(), '\0');
    assert_eq!(scanner.scan_tokens().len(), 1);
}

#[test]
fn treat_whitespace() {
    let scanner = Scanner::new("\r\t ".to_string());
    assert_eq!(scanner.scan_tokens().len(), 1);
}

#[test]
fn treat_newline() {
    let scanner = Scanner::new("\n\n".to_string());
    assert_eq!(scanner.scan_tokens().len(), 1);
}

#[test]
fn statements_test() {
    let scanner = Scanner::new("var a = 1;".to_string());
    let expect = vec![
        Token::new(TokenType::Var, "var".to_string()),
        Token::new(TokenType::Identifier, "a".to_string()),
        Token::new(TokenType::Equal, "=".to_string()),
        Token::new(TokenType::Number, "1".to_string()),
        Token::new(TokenType::Semicolon, ";".to_string()),
        Token::new(TokenType::EOF, "".to_string()),
    ];
    assert_eq!(expect, scanner.scan_tokens());
}

#[test]
fn multiline_test() {
    let scanner = Scanner::new("var a = 1;\nvar b = 2;\nprint \"hello world\";".to_string());
    let expect = vec![
        Token::new(TokenType::Var, "var".to_string()),
        Token::new(TokenType::Identifier, "a".to_string()),
        Token::new(TokenType::Equal, "=".to_string()),
        Token::new(TokenType::Number, "1".to_string()),
        Token::new(TokenType::Semicolon, ";".to_string()),
        Token::new(TokenType::Var, "var".to_string()).at_line(2),
        Token::new(TokenType::Identifier, "b".to_string()).at_line(2),
        Token::new(TokenType::Equal, "=".to_string()).at_line(2),
        Token::new(TokenType::Number, "2".to_string()).at_line(2),
        Token::new(TokenType::Semicolon, ";".to_string()).at_line(2),
        Token::new(TokenType::Print, "print".to_string()).at_line(3),
        Token::new(TokenType::Str, "hello world".to_string()).at_line(3),
        Token::new(TokenType::Semicolon, ";".to_string()).at_line(3),
        Token::new(TokenType::EOF, "".to_string()).at_line(3),
    ];
    assert_eq!(expect, scanner.scan_tokens());
}

#[test]
fn comment_test() {
    let scanner = Scanner::new("var a = 1; // this is a comment".to_string());
    let expect = vec![
        Token::new(TokenType::Var, "var".to_string()),
        Token::new(TokenType::Identifier, "a".to_string()),
        Token::new(TokenType::Equal, "=".to_string()),
        Token::new(TokenType::Number, "1".to_string()),
        Token::new(TokenType::Semicolon, ";".to_string()),
        Token::new(TokenType::EOF, "".to_string()),
    ];
    assert_eq!(expect, scanner.scan_tokens());
}

#[test]
fn empty_source_gives_only_eof() {
    let (tokens, diagnostics) = scan("");
    assert_eq!(tokens, vec![tok(TokenType::EOF, "", 1)]);
    assert!(diagnostics.is_empty());
}

#[test]
fn blanks_give_only_eof() {
    let (tokens, diagnostics) = scan("   \t\r");
    assert_eq!(tokens, vec![tok(TokenType::EOF, "", 1)]);
    assert!(diagnostics.is_empty());
}

#[test]
fn newlines_advance_the_line_counter() {
    let (tokens, diagnostics) = scan("\n\n");
    assert_eq!(tokens, vec![tok(TokenType::EOF, "", 3)]);
    assert_eq!(tokens[0].line(), 3);
    assert!(diagnostics.is_empty());
}

#[test]
fn line_comment_yields_no_token() {
    let (tokens, diagnostics) = scan("// c\nvar x;");
    assert_eq!(
        tokens,
        vec![
            tok(TokenType::Var, "var", 2),
            tok(TokenType::Identifier, "x", 2),
            tok(TokenType::Semicolon, ";", 2),
            tok(TokenType::EOF, "", 2),
        ]
    );
    assert!(diagnostics.is_empty());
}

#[test]
fn nested_block_comment_yields_no_token() {
    let (tokens, diagnostics) = scan("/* a /* b */ c */");
    assert_eq!(tokens, vec![tok(TokenType::EOF, "", 1)]);
    assert!(diagnostics.is_empty());
}

#[test]
fn block_comment_closes_on_matching_pair_only() {
    let (tokens, diagnostics) = scan("/* a /* b */ c */ d /**/ + /***/");
    assert_eq!(
        tokens,
        vec![tok(TokenType::Identifier, "d", 1), tok(TokenType::Plus, "+", 1), tok(TokenType::EOF, "", 1)]
    );
    assert!(diagnostics.is_empty());
}

#[test]
fn block_comment_counts_lines() {
    let (tokens, diagnostics) = scan("/* a\n/* b\n*/\n*/ x");
    assert_eq!(tokens, vec![tok(TokenType::Identifier, "x", 4), tok(TokenType::EOF, "", 4)]);
    assert!(diagnostics.is_empty());
}

#[test]
fn unterminated_block_comment_is_reported_once() {
    let (tokens, diagnostics) = scan("/* a");
    assert_eq!(tokens, vec![tok(TokenType::EOF, "", 1)]);
    assert_eq!(diagnostics.len(), 1);
    assert_eq!(diagnostics[0].error().kind(), &ErrorKind::UnterminatedComment);
    assert!(diagnostics[0].error().had_err());
    assert_eq!(diagnostics[0].line(), 1);
    assert_eq!(diagnostics[0].message(), "Unterminated comment");
}

#[test]
fn unterminated_nested_comment_swallows_the_rest() {
    let (tokens, diagnostics) = scan("x /* a /* b */\nvar y;");
    assert_eq!(tokens, vec![tok(TokenType::Identifier, "x", 1), tok(TokenType::EOF, "", 2)]);
    assert_eq!(diagnostics.len(), 1);
    assert_eq!(diagnostics[0].error().kind(), &ErrorKind::UnterminatedComment);
    assert_eq!(diagnostics[0].line(), 2);
}

#[test]
fn unterminated_string_is_reported() {
    let (tokens, diagnostics) = scan("\"abc");
    assert_eq!(tokens, vec![tok(TokenType::EOF, "", 1)]);
    assert_eq!(diagnostics.len(), 1);
    assert_eq!(
        diagnostics[0].error().kind(),
        &ErrorKind::UnterminatedString("\"abc".to_string())
    );
    assert!(diagnostics[0].message().contains("abc"));
    assert_eq!(diagnostics[0].message(), "Unterminated string: \"abc");
    assert_eq!(diagnostics[0].line(), 1);
}

#[test]
fn string_lexeme_excludes_the_quotes() {
    let (tokens, diagnostics) = scan("\"\" \"a b\"");
    assert_eq!(
        tokens,
        vec![tok(TokenType::Str, "", 1), tok(TokenType::Str, "a b", 1), tok(TokenType::EOF, "", 1)]
    );
    assert!(diagnostics.is_empty());
}

#[test]
fn multiline_string_starts_on_its_first_line() {
    let (tokens, diagnostics) = scan("\"a\nb\" x\n\"c\n");
    assert_eq!(
        tokens,
        vec![
            tok(TokenType::Str, "a\nb", 1),
            tok(TokenType::Identifier, "x", 2),
            tok(TokenType::EOF, "", 4),
        ]
    );
    assert_eq!(diagnostics.len(), 1);
    assert_eq!(
        diagnostics[0].error().kind(),
        &ErrorKind::UnterminatedString("\"c\n".to_string())
    );
    assert_eq!(diagnostics[0].line(), 4);
}

#[test]
fn number_with_fraction_is_one_token() {
    let (tokens, _) = scan("3.14");
    assert_eq!(tokens, vec![tok(TokenType::Number, "3.14", 1), tok(TokenType::EOF, "", 1)]);
}

#[test]
fn trailing_dot_is_a_token_of_its_own() {
    let (tokens, _) = scan("3.");
    assert_eq!(
        tokens,
        vec![tok(TokenType::Number, "3", 1), tok(TokenType::Dot, ".", 1), tok(TokenType::EOF, "", 1)]
    );
    let (tokens, _) = scan("12.x 1.2.3");
    assert_eq!(
        tokens,
        vec![
            tok(TokenType::Number, "12", 1),
            tok(TokenType::Dot, ".", 1),
            tok(TokenType::Identifier, "x", 1),
            tok(TokenType::Number, "1.2", 1),
            tok(TokenType::Dot, ".", 1),
            tok(TokenType::Number, "3", 1),
            tok(TokenType::EOF, "", 1),
        ]
    );
}

#[test]
fn keyword_prefix_is_an_identifier() {
    let (tokens, _) = scan("forest");
    assert_eq!(tokens, vec![tok(TokenType::Identifier, "forest", 1), tok(TokenType::EOF, "", 1)]);
    let (tokens, _) = scan("for fo _for or2 or");
    assert_eq!(
        tokens,
        vec![
            tok(TokenType::For, "for", 1),
            tok(TokenType::Identifier, "fo", 1),
            tok(TokenType::Identifier, "_for", 1),
            tok(TokenType::Identifier, "or2", 1),
            tok(TokenType::Or, "or", 1),
            tok(TokenType::EOF, "", 1),
        ]
    );
}

#[test]
fn every_reserved_word_is_recognised() {
    let src = "and assert class else false fun for if nil or print return super this true var while";
    let (tokens, diagnostics) = scan(src);
    let kinds: Vec<TokenType> = tokens.iter().map(|t| t.token_type()).collect();
    assert_eq!(
        kinds,
        vec![
            TokenType::And,
            TokenType::Assert,
            TokenType::Class,
            TokenType::Else,
            TokenType::False,
            TokenType::Fun,
            TokenType::For,
            TokenType::If,
            TokenType::Nil,
            TokenType::Or,
            TokenType::Print,
            TokenType::Return,
            TokenType::Super,
            TokenType::This,
            TokenType::True,
            TokenType::Var,
            TokenType::While,
            TokenType::EOF,
        ]
    );
    let words: Vec<&str> = src.split(' ').collect();
    for (token, word) in tokens.iter().zip(words.iter()) {
        assert_eq!(token.lexeme(), *word);
    }
    assert!(diagnostics.is_empty());
}

#[test]
fn punctuation_and_operators() {
    let (tokens, diagnostics) = scan("(){},.-+;/*%! != = == > >= < <=");
    assert_eq!(
        tokens,
        vec![
            tok(TokenType::LeftParen, "(", 1),
            tok(TokenType::RightParen, ")", 1),
            tok(TokenType::LeftBrace, "{", 1),
            tok(TokenType::RightBrace, "}", 1),
            tok(TokenType::Comma, ",", 1),
            tok(TokenType::Dot, ".", 1),
            tok(TokenType::Minus, "-", 1),
            tok(TokenType::Plus, "+", 1),
            tok(TokenType::Semicolon, ";", 1),
            tok(TokenType::EOF, "", 1),
        ]
    );
    assert_eq!(diagnostics.len(), 1);
    assert_eq!(diagnostics[0].error().kind(), &ErrorKind::UnterminatedComment);

    let (tokens, diagnostics) = scan("/ * % ! != = == > >= < <= !== <==");
    assert_eq!(
        tokens,
        vec![
            tok(TokenType::Slash, "/", 1),
            tok(TokenType::Star, "*", 1),
            tok(TokenType::Mod, "%", 1),
            tok(TokenType::Bang, "!", 1),
            tok(TokenType::BangEqual, "!=", 1),
            tok(TokenType::Equal, "=", 1),
            tok(TokenType::EqualEqual, "==", 1),
            tok(TokenType::Greater, ">", 1),
            tok(TokenType::GreaterEqual, ">=", 1),
            tok(TokenType::Less, "<", 1),
            tok(TokenType::LessEqual, "<=", 1),
            tok(TokenType::BangEqual, "!=", 1),
            tok(TokenType::Equal, "=", 1),
            tok(TokenType::LessEqual, "<=", 1),
            tok(TokenType::Equal, "=", 1),
            tok(TokenType::EOF, "", 1),
        ]
    );
    assert!(diagnostics.is_empty());
}

#[test]
fn unexpected_characters_do_not_stop_the_pass() {
    let (tokens, diagnostics) = scan("a @ b\n# \u{e9}c");
    assert_eq!(
        tokens,
        vec![
            tok(TokenType::Identifier, "a", 1),
            tok(TokenType::Identifier, "b", 1),
            tok(TokenType::Identifier, "c", 2),
            tok(TokenType::EOF, "", 2),
        ]
    );
    assert_eq!(diagnostics.len(), 3);
    assert_eq!(diagnostics[0].error().kind(), &ErrorKind::UnexpectedCharacter('@'));
    assert_eq!(diagnostics[0].line(), 1);
    assert_eq!(diagnostics[0].message(), "Unexpected character: @");
    assert_eq!(diagnostics[1].error().kind(), &ErrorKind::UnexpectedCharacter('#'));
    assert_eq!(diagnostics[1].line(), 2);
    assert_eq!(diagnostics[2].error().kind(), &ErrorKind::UnexpectedCharacter('\u{e9}'));
    assert_eq!(diagnostics[2].line(), 2);
}

#[test]
fn non_ascii_text_inside_strings_and_comments() {
    let (tokens, diagnostics) = scan("\"h\u{e9}llo\" // \u{4e16}\u{754c}\nx");
    assert_eq!(
        tokens,
        vec![
            tok(TokenType::Str, "h\u{e9}llo", 1),
            tok(TokenType::Identifier, "x", 2),
            tok(TokenType::EOF, "", 2),
        ]
    );
    assert!(diagnostics.is_empty());
}

#[test]
fn scanning_twice_gives_the_same_outcome() {
    let src = "var a = \"x\ny\"; /* c /* d */ @ 1.5.\n\"open";
    let first = scan(src);
    let second = scan(src);
    assert_eq!(first, second);
    assert_eq!(first.0.last().map(|t| t.token_type()), Some(TokenType::EOF));
    let eofs = first.0.iter().filter(|t| t.token_type() == TokenType::EOF).count();
    assert_eq!(eofs, 1);
}

#[test]
fn cursor_primitives() {
    let mut scanner = Scanner::new("a=\n".to_string());
    assert!(!scanner.at_end());
    assert_eq!(scanner.peek(), 'a');
    assert_eq!(scanner.peek2(), '=');
    assert!(!scanner.next_is('='));
    assert_eq!(scanner.peek(), 'a');
    assert_eq!(scanner.eat(), 'a');
    assert!(scanner.next_is('='));
    assert_eq!(scanner.peek(), '\n');
    assert_eq!(scanner.peek2(), '\0');
    assert_eq!(scanner.eat(), '\n');
    assert!(scanner.at_end());
    assert_eq!(scanner.clone().scan_tokens(), vec![tok(TokenType::EOF, "", 2)]);
    assert_eq!(scanner.peek(), '\0');
    assert!(!scanner.next_is('\0'));
    assert_eq!(scanner.eat(), '\0');
    assert!(scanner.at_end());
}

#[test]
fn character_classes_are_ascii_only() {
    let scanner = Scanner::new(String::new());
    assert!(scanner.is_digit('0') && scanner.is_digit('9'));
    assert!(!scanner.is_digit('a') && !scanner.is_digit('/') && !scanner.is_digit(':'));
    assert!(!scanner.is_digit('\u{663}'));
    assert!(scanner.is_alpha('a') && scanner.is_alpha('z'));
    assert!(scanner.is_alpha('A') && scanner.is_alpha('Z') && scanner.is_alpha('_'));
    assert!(!scanner.is_alpha('1') && !scanner.is_alpha('\u{e9}') && !scanner.is_alpha('['));
    assert!(scanner.is_alphanumeric('q') && scanner.is_alphanumeric('7'));
    assert!(scanner.is_alphanumeric('_') && !scanner.is_alphanumeric('-'));
}

#[test]
fn try_new_accepts_ordinary_text() {
    let scanner = Scanner::try_new("1 + 2".to_string()).unwrap();
    let tokens = scanner.scan_tokens();
    assert_eq!(
        tokens,
        vec![
            tok(TokenType::Number, "1", 1),
            tok(TokenType::Plus, "+", 1),
            tok(TokenType::Number, "2", 1),
            tok(TokenType::EOF, "", 1),
        ]
    );
}

#[test]
fn scan_continues_from_the_cursor() {
    let mut scanner = Scanner::new("\n\nx y".to_string());
    assert_eq!(scanner.eat(), '\n');
    assert_eq!(scanner.eat(), '\n');
    assert_eq!(scanner.eat(), 'x');
    let tokens = scanner.scan_tokens();
    assert_eq!(tokens, vec![tok(TokenType::Identifier, "y", 3), tok(TokenType::EOF, "", 3)]);
}

#[test]
fn operators_at_the_end_of_input() {
    let (tokens, diagnostics) = scan("!");
    assert_eq!(tokens, vec![tok(TokenType::Bang, "!", 1), tok(TokenType::EOF, "", 1)]);
    assert!(diagnostics.is_empty());
    let (tokens, _) = scan("/");
    assert_eq!(tokens, vec![tok(TokenType::Slash, "/", 1), tok(TokenType::EOF, "", 1)]);
    let (tokens, _) = scan("a/b");
    assert_eq!(
        tokens,
        vec![
            tok(TokenType::Identifier, "a", 1),
            tok(TokenType::Slash, "/", 1),
            tok(TokenType::Identifier, "b", 1),
            tok(TokenType::EOF, "", 1),
        ]
    );
}

#[test]
fn comment_edges() {
    let (tokens, diagnostics) = scan("/*/");
    assert_eq!(tokens, vec![tok(TokenType::EOF, "", 1)]);
    assert_eq!(diagnostics.len(), 1);
    assert_eq!(diagnostics[0].error().kind(), &ErrorKind::UnterminatedComment);

    let (tokens, diagnostics) = scan("//");
    assert_eq!(tokens, vec![tok(TokenType::EOF, "", 1)]);
    assert!(diagnostics.is_empty());

    let (tokens, diagnostics) = scan("// a /* b\n*/");
    assert_eq!(
        tokens,
        vec![tok(TokenType::Star, "*", 2), tok(TokenType::Slash, "/", 2), tok(TokenType::EOF, "", 2)]
    );
    assert!(diagnostics.is_empty());

    let (tokens, diagnostics) = scan("/* \"x */ \"y\"");
    assert_eq!(tokens, vec![tok(TokenType::Str, "y", 1), tok(TokenType::EOF, "", 1)]);
    assert!(diagnostics.is_empty());
}

#[test]
fn lone_quote_is_an_unterminated_string() {
    let (tokens, diagnostics) = scan("x \"");
    assert_eq!(tokens, vec![tok(TokenType::Identifier, "x", 1), tok(TokenType::EOF, "", 1)]);
    assert_eq!(diagnostics.len(), 1);
    assert_eq!(
        diagnostics[0].error().kind(),
        &ErrorKind::UnterminatedString("\"".to_string())
    );
}

#[test]
fn backslash_does_not_escape_a_quote() {
    let (tokens, diagnostics) = scan("\"a\\\"b");
    assert_eq!(
        tokens,
        vec![tok(TokenType::Str, "a\\", 1), tok(TokenType::Identifier, "b", 1), tok(TokenType::EOF, "", 1)]
    );
    assert!(diagnostics.is_empty());
}

#[test]
fn numbers_and_words_are_matched_greedily() {
    let (tokens, _) = scan("123abc 0.5.25 .5 7.");
    assert_eq!(
        tokens,
        vec![
            tok(TokenType::Number, "123", 1),
            tok(TokenType::Identifier, "abc", 1),
            tok(TokenType::Number, "0.5", 1),
            tok(TokenType::Dot, ".", 1),
            tok(TokenType::Number, "25", 1),
            tok(TokenType::Dot, ".", 1),
            tok(TokenType::Number, "5", 1),
            tok(TokenType::Number, "7", 1),
            tok(TokenType::Dot, ".", 1),
            tok(TokenType::EOF, "", 1),
        ]
    );
}

#[test]
fn nul_character_is_unexpected() {
    let (tokens, diagnostics) = scan("\0a");
    assert_eq!(tokens, vec![tok(TokenType::Identifier, "a", 1), tok(TokenType::EOF, "", 1)]);
    assert_eq!(diagnostics.len(), 1);
    assert_eq!(diagnostics[0].error().kind(), &ErrorKind::UnexpectedCharacter('\0'));
}
