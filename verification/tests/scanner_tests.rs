use lox_scanner::{error, ErrorReport, Literal, Scanner, Token, TokenType};

fn scan(text: &str) -> (Vec<Token>, Vec<ErrorReport>) {
    let mut scanner = Scanner::new(text.to_string());
    let tokens = scanner.scan_tokens();
    (tokens, scanner.errors)
}

fn plain(kind: TokenType, lexeme: &str, line: i32) -> Token {
    Token::new(kind, lexeme.to_string(), Literal::Nil, line)
}

fn number(lexeme: &str, line: i32) -> Token {
    Token::new(TokenType::Number, lexeme.to_string(), Literal::Number(lexeme.to_string()), line)
}

fn eof(line: i32) -> Token {
    plain(TokenType::EOF, "", line)
}

fn value_of(token: &Token) -> f64 {
    match token.literal() {
        Literal::Number(numeral) => numeral.parse::<f64>().unwrap(),
        _ => panic!("not a number"),
    }
}

fn kinds(tokens: &[Token]) -> Vec<TokenType> {
    tokens.iter().map(|t| t.token_type()).collect()
}

#[test]
fn empty_text_gives_end_of_input() {
    let (tokens, errors) = scan("");
    assert_eq!(tokens, vec![eof(1)]);
    assert!(errors.is_empty());
}

#[test]
fn blanks_and_comments_give_end_of_input_alone() {
    let (tokens, errors) = scan("  // hello\n\t\r\n // x");
    assert_eq!(tokens, vec![eof(3)]);
    assert!(errors.is_empty());
    let (tokens, errors) = scan(" \t\r ");
    assert_eq!(tokens, vec![eof(1)]);
    assert!(errors.is_empty());
    let (tokens, _) = scan("//");
    assert_eq!(tokens, vec![eof(1)]);
    let (tokens, _) = scan("// a // b / \" 1 @\n");
    assert_eq!(tokens, vec![eof(2)]);
}

#[test]
fn numbers_and_punctuation_need_no_blanks() {
    let (tokens, errors) = scan("1+2");
    assert_eq!(
        tokens,
        vec![number("1", 1), plain(TokenType::Plus, "+", 1), number("2", 1), eof(1)]
    );
    assert_eq!(value_of(&tokens[0]), 1.0);
    assert_eq!(value_of(&tokens[2]), 2.0);
    assert!(errors.is_empty());
}

#[test]
fn string_literal_holds_text_between_quotes() {
    let (tokens, errors) = scan("\"abc\"");
    assert_eq!(
        tokens,
        vec![
            Token::new(
                TokenType::String,
                "\"abc\"".to_string(),
                Literal::String("abc".to_string()),
                1
            ),
            eof(1)
        ]
    );
    assert!(errors.is_empty());
}

#[test]
fn empty_string_literal() {
    let (tokens, errors) = scan("\"\"");
    assert_eq!(
        tokens,
        vec![
            Token::new(TokenType::String, "\"\"".to_string(), Literal::String(String::new()), 1),
            eof(1)
        ]
    );
    assert!(errors.is_empty());
}

#[test]
fn escapes_are_not_interpreted() {
    let (tokens, _) = scan("\"a\\n\"");
    assert_eq!(tokens[0].literal(), &Literal::String("a\\n".to_string()));
}

#[test]
fn unterminated_string_is_reported_and_skipped() {
    let (tokens, errors) = scan("\"abc");
    assert_eq!(tokens, vec![eof(1)]);
    assert_eq!(errors.len(), 1);
    assert_eq!(errors[0].line, 1);
    assert_eq!(errors[0].location, "");
    assert_eq!(errors[0].message, "Unterminated string.");
}

#[test]
fn unterminated_string_is_reported_at_the_last_line() {
    let (tokens, errors) = scan("x\n\"abc\n\ndef");
    assert_eq!(tokens, vec![plain(TokenType::Identifier, "x", 1), eof(4)]);
    assert_eq!(errors, vec![error(4, "Unterminated string.".to_string())]);
}

#[test]
fn lone_quote_is_an_unterminated_string() {
    let (tokens, errors) = scan("\"");
    assert_eq!(tokens, vec![eof(1)]);
    assert_eq!(errors, vec![error(1, "Unterminated string.".to_string())]);
}

#[test]
fn number_with_fraction() {
    let (tokens, errors) = scan("12.5");
    assert_eq!(tokens, vec![number("12.5", 1), eof(1)]);
    assert_eq!(value_of(&tokens[0]), 12.5);
    assert!(errors.is_empty());
}

#[test]
fn trailing_dot_is_its_own_token() {
    let (tokens, errors) = scan("12.");
    assert_eq!(tokens, vec![number("12", 1), plain(TokenType::Dot, ".", 1), eof(1)]);
    assert_eq!(value_of(&tokens[0]), 12.0);
    assert!(errors.is_empty());
}

#[test]
fn leading_dot_is_its_own_token() {
    let (tokens, _) = scan(".5");
    assert_eq!(tokens, vec![plain(TokenType::Dot, ".", 1), number("5", 1), eof(1)]);
}

#[test]
fn second_dot_ends_the_number() {
    let (tokens, _) = scan("1.2.3");
    assert_eq!(
        tokens,
        vec![number("1.2", 1), plain(TokenType::Dot, ".", 1), number("3", 1), eof(1)]
    );
    assert_eq!(value_of(&tokens[0]), 1.2);
}

#[test]
fn dot_before_a_letter_ends_the_number() {
    let (tokens, _) = scan("7.x");
    assert_eq!(
        tokens,
        vec![
            number("7", 1),
            plain(TokenType::Dot, ".", 1),
            plain(TokenType::Identifier, "x", 1),
            eof(1)
        ]
    );
}

#[test]
fn numerals_keep_their_zeros() {
    let (tokens, _) = scan("007 1.50");
    assert_eq!(tokens, vec![number("007", 1), number("1.50", 1), eof(1)]);
    assert_eq!(value_of(&tokens[0]), 7.0);
    assert_eq!(value_of(&tokens[1]), 1.5);
}

#[test]
fn digits_then_letters_are_two_tokens() {
    let (tokens, _) = scan("12ab");
    assert_eq!(tokens, vec![number("12", 1), plain(TokenType::Identifier, "ab", 1), eof(1)]);
}

#[test]
fn keywords_match_whole_words() {
    let (tokens, errors) = scan("orchid or true");
    assert_eq!(
        tokens,
        vec![
            plain(TokenType::Identifier, "orchid", 1),
            plain(TokenType::Or, "or", 1),
            Token::new(TokenType::True, "true".to_string(), Literal::Boolean(true), 1),
            eof(1)
        ]
    );
    assert!(errors.is_empty());
}

#[test]
fn false_carries_its_boolean() {
    let (tokens, _) = scan("false");
    assert_eq!(
        tokens,
        vec![Token::new(TokenType::False, "false".to_string(), Literal::Boolean(false), 1), eof(1)]
    );
}

#[test]
fn every_reserved_word_has_its_kind() {
    let (tokens, errors) = scan(
        "and class else false for fun if nil or print return super this true var while",
    );
    assert_eq!(
        kinds(&tokens),
        vec![
            TokenType::And,
            TokenType::Class,
            TokenType::Else,
            TokenType::False,
            TokenType::For,
            TokenType::Fun,
            TokenType::If,
            TokenType::Nil,
            TokenType::Or,
            TokenType::Print,
            TokenType::Return,
            TokenType::Super,
            TokenType::This,
            TokenType::True,
            TokenType::Var,
            TokenType::While,
            TokenType::EOF
        ]
    );
    for token in &tokens {
        match token.token_type() {
            TokenType::True => assert_eq!(token.literal(), &Literal::Boolean(true)),
            TokenType::False => assert_eq!(token.literal(), &Literal::Boolean(false)),
            _ => assert_eq!(token.literal(), &Literal::Nil),
        }
    }
    assert!(errors.is_empty());
}

#[test]
fn reserved_words_are_case_sensitive_and_exact() {
    let (tokens, _) = scan("And nil_ _if classes fo");
    assert_eq!(
        tokens,
        vec![
            plain(TokenType::Identifier, "And", 1),
            plain(TokenType::Identifier, "nil_", 1),
            plain(TokenType::Identifier, "_if", 1),
            plain(TokenType::Identifier, "classes", 1),
            plain(TokenType::Identifier, "fo", 1),
            eof(1)
        ]
    );
}

#[test]
fn identifiers_take_letters_digits_and_underscores() {
    let (tokens, _) = scan("_a1_B2 __");
    assert_eq!(
        tokens,
        vec![
            plain(TokenType::Identifier, "_a1_B2", 1),
            plain(TokenType::Identifier, "__", 1),
            eof(1)
        ]
    );
}

#[test]
fn single_character_tokens() {
    let (tokens, errors) = scan("(){},.-+;*/");
    assert_eq!(
        tokens,
        vec![
            plain(TokenType::LeftParen, "(", 1),
            plain(TokenType::RightParen, ")", 1),
            plain(TokenType::LeftBrace, "{", 1),
            plain(TokenType::RightBrace, "}", 1),
            plain(TokenType::Comma, ",", 1),
            plain(TokenType::Dot, ".", 1),
            plain(TokenType::Minus, "-", 1),
            plain(TokenType::Plus, "+", 1),
            plain(TokenType::Semicolon, ";", 1),
            plain(TokenType::Star, "*", 1),
            plain(TokenType::Slash, "/", 1),
            eof(1)
        ]
    );
    assert!(errors.is_empty());
}

#[test]
fn one_and_two_character_operators() {
    let (tokens, errors) = scan("! != = == < <= > >=");
    assert_eq!(
        tokens,
        vec![
            plain(TokenType::Bang, "!", 1),
            plain(TokenType::BangEqual, "!=", 1),
            plain(TokenType::Equal, "=", 1),
            plain(TokenType::EqualEqual, "==", 1),
            plain(TokenType::Less, "<", 1),
            plain(TokenType::LessEqual, "<=", 1),
            plain(TokenType::Greater, ">", 1),
            plain(TokenType::GreaterEqual, ">=", 1),
            eof(1)
        ]
    );
    assert!(errors.is_empty());
}

#[test]
fn operators_take_the_longest_match_from_the_left() {
    let (tokens, _) = scan("===!<==>");
    assert_eq!(
        tokens,
        vec![
            plain(TokenType::EqualEqual, "==", 1),
            plain(TokenType::Equal, "=", 1),
            plain(TokenType::Bang, "!", 1),
            plain(TokenType::LessEqual, "<=", 1),
            plain(TokenType::Equal, "=", 1),
            plain(TokenType::Greater, ">", 1),
            eof(1)
        ]
    );
}

#[test]
fn comment_runs_to_the_end_of_its_line() {
    let (tokens, errors) = scan("a // b c \"\nd / e");
    assert_eq!(
        tokens,
        vec![
            plain(TokenType::Identifier, "a", 1),
            plain(TokenType::Identifier, "d", 2),
            plain(TokenType::Slash, "/", 2),
            plain(TokenType::Identifier, "e", 2),
            eof(2)
        ]
    );
    assert!(errors.is_empty());
}

#[test]
fn unexpected_character_is_reported_and_skipped() {
    let (tokens, errors) = scan("@+");
    assert_eq!(tokens, vec![plain(TokenType::Plus, "+", 1), eof(1)]);
    assert_eq!(errors.len(), 1);
    assert_eq!(errors[0].line, 1);
    assert_eq!(errors[0].location, "");
    assert_eq!(errors[0].message, "Unexpected character.");
}

#[test]
fn reports_come_in_order_with_their_lines() {
    let (tokens, errors) = scan("#\n1 $\n\n% \"x");
    assert_eq!(tokens, vec![number("1", 2), eof(4)]);
    assert_eq!(
        errors,
        vec![
            error(1, "Unexpected character.".to_string()),
            error(2, "Unexpected character.".to_string()),
            error(4, "Unexpected character.".to_string()),
            error(4, "Unterminated string.".to_string())
        ]
    );
}

#[test]
fn lines_are_counted_from_one() {
    let (tokens, _) = scan("a\nb\n\nc\r\n d");
    assert_eq!(
        tokens,
        vec![
            plain(TokenType::Identifier, "a", 1),
            plain(TokenType::Identifier, "b", 2),
            plain(TokenType::Identifier, "c", 4),
            plain(TokenType::Identifier, "d", 5),
            eof(5)
        ]
    );
    let (tokens, _) = scan("\n\n\n");
    assert_eq!(tokens, vec![eof(4)]);
}

#[test]
fn string_over_lines_stands_on_its_first_line() {
    let (tokens, errors) = scan("x \"a\nb\nc\" y\nz");
    assert_eq!(
        tokens,
        vec![
            plain(TokenType::Identifier, "x", 1),
            Token::new(
                TokenType::String,
                "\"a\nb\nc\"".to_string(),
                Literal::String("a\nb\nc".to_string()),
                1
            ),
            plain(TokenType::Identifier, "y", 3),
            plain(TokenType::Identifier, "z", 4),
            eof(4)
        ]
    );
    assert!(errors.is_empty());
}

#[test]
fn token_lines_count_the_line_feeds_before_them() {
    let text = "var a = 1;\n// note\nprint \"x\ny\" + a; /\n\n@ while";
    let (tokens, _) = scan(text);
    let chars: Vec<char> = text.chars().collect();
    let mut from = 0;
    for token in &tokens[..tokens.len() - 1] {
        let lexeme: Vec<char> = token.lexeme().chars().collect();
        let mut at = from;
        while chars[at..at + lexeme.len()] != lexeme[..] {
            at += 1;
        }
        let before = chars[..at].iter().filter(|c| **c == '\n').count();
        assert_eq!(token.line(), 1 + before as i32);
        from = at + lexeme.len();
    }
    let all = chars.iter().filter(|c| **c == '\n').count();
    assert_eq!(tokens[tokens.len() - 1], eof(1 + all as i32));
    assert_eq!(all, 5);
}

#[test]
fn same_text_gives_same_tokens() {
    let text = "fun f(a) { return a >= 1.5 or \"s\"; } // c\n@ \"open";
    let (first, first_errors) = scan(text);
    let (second, second_errors) = scan(text);
    assert_eq!(first, second);
    assert_eq!(first_errors, second_errors);
    assert_eq!(first.len(), 15);
    assert_eq!(first_errors.len(), 2);
}

#[test]
fn exactly_one_end_of_input_closes_a_scan() {
    let (tokens, _) = scan("a b \"c\" 1 //\n=");
    let count = tokens.iter().filter(|t| t.token_type() == TokenType::EOF).count();
    assert_eq!(count, 1);
    assert_eq!(tokens[tokens.len() - 1], eof(2));
}

#[test]
fn small_program() {
    let (tokens, errors) = scan("var x = 10;\nif (x <= 12.25) print \"ok\";");
    assert_eq!(
        tokens,
        vec![
            plain(TokenType::Var, "var", 1),
            plain(TokenType::Identifier, "x", 1),
            plain(TokenType::Equal, "=", 1),
            number("10", 1),
            plain(TokenType::Semicolon, ";", 1),
            plain(TokenType::If, "if", 2),
            plain(TokenType::LeftParen, "(", 2),
            plain(TokenType::Identifier, "x", 2),
            plain(TokenType::LessEqual, "<=", 2),
            number("12.25", 2),
            plain(TokenType::RightParen, ")", 2),
            plain(TokenType::Print, "print", 2),
            Token::new(
                TokenType::String,
                "\"ok\"".to_string(),
                Literal::String("ok".to_string()),
                2
            ),
            plain(TokenType::Semicolon, ";", 2),
            eof(2)
        ]
    );
    assert!(errors.is_empty());
}

#[test]
fn positions_count_characters_not_bytes() {
    let (tokens, errors) = scan("\"h\u{e9}\u{4e16}\" x");
    assert_eq!(
        tokens,
        vec![
            Token::new(
                TokenType::String,
                "\"h\u{e9}\u{4e16}\"".to_string(),
                Literal::String("h\u{e9}\u{4e16}".to_string()),
                1
            ),
            plain(TokenType::Identifier, "x", 1),
            eof(1)
        ]
    );
    assert!(errors.is_empty());
    let (tokens, errors) = scan("a\u{e9}b // \u{4e16}\n\u{3c0}");
    assert_eq!(
        tokens,
        vec![
            plain(TokenType::Identifier, "a", 1),
            plain(TokenType::Identifier, "b", 1),
            eof(2)
        ]
    );
    assert_eq!(
        errors,
        vec![
            error(1, "Unexpected character.".to_string()),
            error(2, "Unexpected character.".to_string())
        ]
    );
}

#[test]
fn new_scanner_is_at_the_beginning() {
    let scanner = Scanner::new("ab".to_string());
    assert_eq!(scanner.source, "ab");
    assert!(scanner.tokens.is_empty());
    assert!(scanner.errors.is_empty());
    assert_eq!(scanner.line, 1);
    assert_eq!(scanner.keywords.len(), 16);
    assert!(!scanner.is_at_end());
    assert!(Scanner::new(String::new()).is_at_end());
}

#[test]
fn cursor_moves_one_character_at_a_time() {
    let mut scanner = Scanner::new("a=b".to_string());
    assert_eq!(scanner.peek(), 'a');
    assert_eq!(scanner.peek_next(), '=');
    assert_eq!(scanner.advance(), 'a');
    assert_eq!(scanner.peek(), '=');
    assert_eq!(scanner.peek_next(), 'b');
    assert!(!scanner.match_char('b'));
    assert_eq!(scanner.peek(), '=');
    assert!(scanner.match_char('='));
    assert_eq!(scanner.peek(), 'b');
    assert_eq!(scanner.peek_next(), '\0');
    assert!(!scanner.is_at_end());
    assert_eq!(scanner.advance(), 'b');
    assert!(scanner.is_at_end());
    assert_eq!(scanner.peek(), '\0');
    assert_eq!(scanner.peek_next(), '\0');
    assert!(!scanner.match_char('b'));
    assert!(scanner.is_at_end());
}

#[test]
fn add_token_takes_the_lexeme_under_the_cursor() {
    let mut scanner = Scanner::new("ab\nc".to_string());
    scanner.add_token(TokenType::Identifier);
    scanner.advance();
    scanner.advance();
    scanner.add_token(TokenType::Identifier);
    scanner.add_token_literal(TokenType::String, Literal::String("v".to_string()));
    assert_eq!(
        scanner.tokens,
        vec![
            plain(TokenType::Identifier, "", 1),
            plain(TokenType::Identifier, "ab", 1),
            Token::new(TokenType::String, "ab".to_string(), Literal::String("v".to_string()), 1)
        ]
    );
}

#[test]
fn scan_token_reads_one_lexeme() {
    let mut scanner = Scanner::new("<= x".to_string());
    scanner.scan_token();
    assert_eq!(scanner.tokens, vec![plain(TokenType::LessEqual, "<=", 1)]);
    assert_eq!(scanner.peek(), ' ');
    let mut scanner = Scanner::new("\nx".to_string());
    scanner.scan_token();
    assert!(scanner.tokens.is_empty());
    assert_eq!(scanner.line, 2);
    assert_eq!(scanner.peek(), 'x');
}

#[test]
fn rules_can_be_applied_one_by_one() {
    let mut scanner = Scanner::new("\"a\nb\" 12.5. while_ ".to_string());
    scanner.advance();
    scanner.string();
    assert_eq!(scanner.line, 2);
    assert_eq!(scanner.peek(), ' ');
    let mut scanner = Scanner::new("12.5.".to_string());
    scanner.advance();
    scanner.number();
    assert_eq!(scanner.tokens, vec![number("12.5", 1)]);
    assert_eq!(scanner.peek(), '.');
    let mut scanner = Scanner::new("while_ x".to_string());
    scanner.advance();
    scanner.identifier();
    assert_eq!(scanner.tokens, vec![plain(TokenType::Identifier, "while_", 1)]);
    assert_eq!(scanner.peek(), ' ');
}

#[test]
fn scan_returns_what_the_scanner_holds() {
    let mut scanner = Scanner::new("a @".to_string());
    let tokens = scanner.scan_tokens();
    assert_eq!(tokens, scanner.tokens);
    assert_eq!(scanner.errors(), &scanner.errors);
    assert_eq!(scanner.errors().len(), 1);
    assert!(scanner.is_at_end());
    assert_eq!(scanner.source, "a @");
}

#[test]
fn character_classes() {
    for c in ['0', '5', '9'] {
        assert!(Scanner::is_digit(c));
        assert!(!Scanner::is_alpha(c));
        assert!(Scanner::is_alphanumeric(c));
    }
    for c in ['a', 'm', 'z', 'A', 'Q', 'Z', '_'] {
        assert!(!Scanner::is_digit(c));
        assert!(Scanner::is_alpha(c));
        assert!(Scanner::is_alphanumeric(c));
    }
    for c in ['/', ':', '@', '[', '`', '{', ' ', '\0', '\n', '\u{e9}', '\u{663}'] {
        assert!(!Scanner::is_digit(c));
        assert!(!Scanner::is_alpha(c));
        assert!(!Scanner::is_alphanumeric(c));
    }
}

#[test]
fn token_holds_what_it_was_made_of() {
    let token =
        Token::new(TokenType::String, "\"hi\"".to_string(), Literal::String("hi".to_string()), 7);
    assert_eq!(token.token_type(), TokenType::String);
    assert_eq!(token.lexeme(), "\"hi\"");
    assert_eq!(token.literal(), &Literal::String("hi".to_string()));
    assert_eq!(token.line(), 7);
    let copy = token.clone();
    assert_eq!(copy, token);
    assert_ne!(token, plain(TokenType::String, "\"hi\"", 7));
}

#[test]
fn token_text_names_kind_lexeme_and_literal() {
    assert_eq!(plain(TokenType::LeftParen, "(", 1).to_string(), "LeftParen (");
    assert_eq!(eof(3).to_string(), "EOF ");
    assert_eq!(number("12.5", 1).to_string(), "Number 12.5 12.5");
    assert_eq!(
        Token::new(TokenType::String, "\"a b\"".to_string(), Literal::String("a b".to_string()), 1)
            .to_string(),
        "String \"a b\" a b"
    );
    assert_eq!(
        Token::new(TokenType::True, "true".to_string(), Literal::Boolean(true), 1).to_string(),
        "True true true"
    );
    assert_eq!(
        Token::new(TokenType::False, "false".to_string(), Literal::Boolean(false), 1).to_string(),
        "False false false"
    );
    assert_eq!(plain(TokenType::Identifier, "orchid", 2).to_string(), "Identifier orchid");
}

#[test]
fn kind_names_are_their_spellings() {
    let (tokens, _) = scan(
        "(){},.-+;/* ! != = == > >= < <= x \"s\" 1 and class else false fun for if nil or print \
         return super this true var while",
    );
    for token in &tokens {
        assert_eq!(token.token_type().as_str(), format!("{:?}", token.token_type()));
    }
    assert_eq!(tokens.len(), 39);
    assert_eq!(TokenType::GreaterEqual.as_str(), "GreaterEqual");
    assert_eq!(TokenType::EOF.as_str(), "EOF");
}

#[test]
fn error_makes_a_report_without_location() {
    let report = error(12, "Unexpected character.".to_string());
    assert_eq!(report.line, 12);
    assert_eq!(report.location, "");
    assert_eq!(report.message, "Unexpected character.");
    assert_eq!(report.clone(), report);
}

#[test]
fn long_text_is_scanned_to_its_end() {
    let mut text = String::new();
    for i in 0..2000 {
        text.push_str("x");
        text.push_str(&i.to_string());
        text.push_str(" = 1.5; // c\n");
    }
    let (tokens, errors) = scan(&text);
    assert_eq!(tokens.len(), 2000 * 4 + 1);
    assert_eq!(tokens[tokens.len() - 1], eof(2001));
    assert_eq!(tokens[4 * 1999], plain(TokenType::Identifier, "x1999", 2000));
    assert!(errors.is_empty());
}
