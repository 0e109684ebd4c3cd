use monkey::lexer::Lexer;
use monkey::token::{Token, TokenType};

#[test]
fn test_next_token() {
    let input = "
        let five = 5;
        let b = true;
        let b = false;
        let ten = 5 + 5;
        let zero = 5 - 5;
        let ten = 5 * 2;
        */=!;
        == != < > ;

        fn(x, y) {
            x + y;
        };

        if(5 < 10) {
            return true;
        } else {
            return false;
        }

        let s = \"hello world\";
                        ";
    let mut lexer = Lexer::new(input);

    let tests = vec![
        Token::new(TokenType::LET, "let".to_string()),
        Token::new(TokenType::IDENT, "five".to_string()),
        Token::new(TokenType::ASSIGN, "=".to_string()),
        Token::new(TokenType::INT, "5".to_string()),
        Token::new(TokenType::SEMICOLON, ";".to_string()),
        Token::new(TokenType::LET, "let".to_string()),
        Token::new(TokenType::IDENT, "b".to_string()),
        Token::new(TokenType::ASSIGN, "=".to_string()),
        Token::new(TokenType::TRUE, "true".to_string()),
        Token::new(TokenType::SEMICOLON, ";".to_string()),
        Token::new(TokenType::LET, "let".to_string()),
        Token::new(TokenType::IDENT, "b".to_string()),
        Token::new(TokenType::ASSIGN, "=".to_string()),
        Token::new(TokenType::FALSE, "false".to_string()),
        Token::new(TokenType::SEMICOLON, ";".to_string()),
        Token::new(TokenType::LET, "let".to_string()),
        Token::new(TokenType::IDENT, "ten".to_string()),
        Token::new(TokenType::ASSIGN, "=".to_string()),
        Token::new(TokenType::INT, "5".to_string()),
        Token::new(TokenType::PLUS, "+".to_string()),
        Token::new(TokenType::INT, "5".to_string()),
        Token::new(TokenType::SEMICOLON, ";".to_string()),
        Token::new(TokenType::LET, "let".to_string()),
        Token::new(TokenType::IDENT, "zero".to_string()),
        Token::new(TokenType::ASSIGN, "=".to_string()),
        Token::new(TokenType::INT, "5".to_string()),
        Token::new(TokenType::MINUS, "-".to_string()),
        Token::new(TokenType::INT, "5".to_string()),
        Token::new(TokenType::SEMICOLON, ";".to_string()),
        Token::new(TokenType::LET, "let".to_string()),
        Token::new(TokenType::IDENT, "ten".to_string()),
        Token::new(TokenType::ASSIGN, "=".to_string()),
        Token::new(TokenType::INT, "5".to_string()),
        Token::new(TokenType::ASTERISK, "*".to_string()),
        Token::new(TokenType::INT, "2".to_string()),
        Token::new(TokenType::SEMICOLON, ";".to_string()),
        Token::new(TokenType::ASTERISK, "*".to_string()),
        Token::new(TokenType::SLASH, "/".to_string()),
        Token::new(TokenType::ASSIGN, "=".to_string()),
        Token::new(TokenType::BANG, "!".to_string()),
        Token::new(TokenType::SEMICOLON, ";".to_string()),
        Token::new(TokenType::EQ, "==".to_string()),
        Token::new(TokenType::NOT_EQ, "!=".to_string()),
        Token::new(TokenType::LT, "<".to_string()),
        Token::new(TokenType::RT, ">".to_string()),
        Token::new(TokenType::SEMICOLON, ";".to_string()),
        Token::new(TokenType::FUNCTION, "fn".to_string()),
        Token::new(TokenType::LPAREN, "(".to_string()),
        Token::new(TokenType::IDENT, "x".to_string()),
        Token::new(TokenType::COMMA, ",".to_string()),
        Token::new(TokenType::IDENT, "y".to_string()),
        Token::new(TokenType::RPAREN, ")".to_string()),
        Token::new(TokenType::LBRACE, "{".to_string()),
        Token::new(TokenType::IDENT, "x".to_string()),
        Token::new(TokenType::PLUS, "+".to_string()),
        Token::new(TokenType::IDENT, "y".to_string()),
        Token::new(TokenType::SEMICOLON, ";".to_string()),
        Token::new(TokenType::RBRACE, "}".to_string()),
        Token::new(TokenType::SEMICOLON, ";".to_string()),
        Token::new(TokenType::IF, "if".to_string()),
        Token::new(TokenType::LPAREN, "(".to_string()),
        Token::new(TokenType::INT, "5".to_string()),
        Token::new(TokenType::LT, "<".to_string()),
        Token::new(TokenType::INT, "10".to_string()),
        Token::new(TokenType::RPAREN, ")".to_string()),
        Token::new(TokenType::LBRACE, "{".to_string()),
        Token::new(TokenType::RETURN, "return".to_string()),
        Token::new(TokenType::TRUE, "true".to_string()),
        Token::new(TokenType::SEMICOLON, ";".to_string()),
        Token::new(TokenType::RBRACE, "}".to_string()),
        Token::new(TokenType::ELSE, "else".to_string()),
        Token::new(TokenType::LBRACE, "{".to_string()),
        Token::new(TokenType::RETURN, "return".to_string()),
        Token::new(TokenType::FALSE, "false".to_string()),
        Token::new(TokenType::SEMICOLON, ";".to_string()),
        Token::new(TokenType::RBRACE, "}".to_string()),
        Token::new(TokenType::LET, "let".to_string()),
        Token::new(TokenType::IDENT, "s".to_string()),
        Token::new(TokenType::ASSIGN, "=".to_string()),
        Token::new(TokenType::STRING, "hello world".to_string()),
        Token::new(TokenType::SEMICOLON, ";".to_string()),
        Token::new(TokenType::EOF, '\0'.to_string()),
    ];

    for tt in tests {
        let tok = lexer.next_token();
        assert_eq!(tok.token_type, tt.token_type);
        assert_eq!(tok.literal, tt.literal);
    }
}

#[test]
fn test_two_char_operators_are_single_tokens() {
    let mut lexer = Lexer::new("a == b != c");
    let kinds = vec![
        (TokenType::IDENT, "a"),
        (TokenType::EQ, "=="),
        (TokenType::IDENT, "b"),
        (TokenType::NOT_EQ, "!="),
        (TokenType::IDENT, "c"),
        (TokenType::EOF, "\0"),
    ];
    for (kind, lit) in kinds {
        let tok = lexer.next_token();
        assert_eq!(tok.token_type, kind);
        assert_eq!(tok.literal, lit);
    }
}

#[test]
fn test_keywords_are_whole_runs() {
    let mut lexer = Lexer::new("lettuce let iffy if");
    let tok = lexer.next_token();
    assert_eq!(tok.token_type, TokenType::IDENT);
    assert_eq!(tok.literal, "lettuce");
    let tok = lexer.next_token();
    assert_eq!(tok.token_type, TokenType::LET);
    let tok = lexer.next_token();
    assert_eq!(tok.token_type, TokenType::IDENT);
    assert_eq!(tok.literal, "iffy");
    let tok = lexer.next_token();
    assert_eq!(tok.token_type, TokenType::IF);
}

#[test]
fn test_eof_repeats_when_polled_past_end() {
    let mut lexer = Lexer::new("x");
    assert_eq!(lexer.next_token().token_type, TokenType::IDENT);
    assert_eq!(lexer.next_token().token_type, TokenType::EOF);
    assert_eq!(lexer.next_token().token_type, TokenType::EOF);
    assert_eq!(lexer.next_token().token_type, TokenType::EOF);
}

#[test]
fn test_unterminated_string_is_illegal() {
    let mut lexer = Lexer::new("\"abc");
    let tok = lexer.next_token();
    assert_eq!(tok.token_type, TokenType::ILLEGAL);
    assert_eq!(tok.literal, "abc");
    assert_eq!(lexer.next_token().token_type, TokenType::EOF);
}

#[test]
fn test_unknown_character_is_illegal() {
    let mut lexer = Lexer::new("#");
    let tok = lexer.next_token();
    assert_eq!(tok.token_type, TokenType::ILLEGAL);
    assert_eq!(tok.literal, "#");
}
