use lang_frontend::lexer::{tokenize, Lexer};
use lang_frontend::token::{Token, TokenType};
use lang_frontend::utils::{is_digit, is_letter};

fn kinds(input: &str) -> Vec<TokenType> {
    tokenize(input.to_string()).into_iter().map(|token| token.kind).collect()
}

fn literals(input: &str) -> Vec<String> {
    tokenize(input.to_string()).into_iter().map(|token| token.literal).collect()
}

fn ident(name: &str) -> TokenType {
    TokenType::IDENT(name.to_string())
}

#[test]
fn test_next_token_second() {
    let input = "let five = 5;
    let ten = 10;

    let add = fn(x, y) {
        x + y;
    }

    let result = add(five, ten);
    !-/*5;
    5 < 10 > 5;

    if (5 < 10) {
        return true;
        } else {
        return false;
        }

    10 == 10;
    10 != 9;
    ";

    let mut lexer = Lexer::new(input.to_string());

    let tests = [
        Token::new_token(TokenType::LET, "let".to_string()),
        Token::new_token(TokenType::IDENT("five".to_string()), "five".to_string()),
        Token::new_token(TokenType::ASSIGN, "=".to_string()),
        Token::new_token(TokenType::INT(5), "5".to_string()),
        Token::new_token(TokenType::SEMICOLON, ";".to_string()),
        Token::new_token(TokenType::LET, "let".to_string()),
        Token::new_token(TokenType::IDENT("ten".to_string()), "ten".to_string()),
        Token::new_token(TokenType::ASSIGN, "=".to_string()),
        Token::new_token(TokenType::INT(10), "10".to_string()),
        Token::new_token(TokenType::SEMICOLON, ";".to_string()),
        Token::new_token(TokenType::LET, "let".to_string()),
        Token::new_token(TokenType::IDENT("add".to_string()), "add".to_string()),
        Token::new_token(TokenType::ASSIGN, "=".to_string()),
        Token::new_token(TokenType::FUNCTION, "fn".to_string()),
        Token::new_token(TokenType::LPAREN, "(".to_string()),
        Token::new_token(TokenType::IDENT("x".to_string()), "x".to_string()),
        Token::new_token(TokenType::COMMA, ",".to_string()),
        Token::new_token(TokenType::IDENT("y".to_string()), "y".to_string()),
        Token::new_token(TokenType::RPAREN, ")".to_string()),
        Token::new_token(TokenType::LBRACE, "{".to_string()),
        Token::new_token(TokenType::IDENT("x".to_string()), "x".to_string()),
        Token::new_token(TokenType::PLUS, "+".to_string()),
        Token::new_token(TokenType::IDENT("y".to_string()), "y".to_string()),
        Token::new_token(TokenType::SEMICOLON, ";".to_string()),
        Token::new_token(TokenType::RBRACE, "}".to_string()),
        Token::new_token(TokenType::LET, "let".to_string()),
        Token::new_token(TokenType::IDENT("result".to_string()), "result".to_string()),
        Token::new_token(TokenType::ASSIGN, "=".to_string()),
        Token::new_token(TokenType::IDENT("add".to_string()), "add".to_string()),
        Token::new_token(TokenType::LPAREN, "(".to_string()),
        Token::new_token(TokenType::IDENT("five".to_string()), "five".to_string()),
        Token::new_token(TokenType::COMMA, ",".to_string()),
        Token::new_token(TokenType::IDENT("ten".to_string()), "ten".to_string()),
        Token::new_token(TokenType::RPAREN, ")".to_string()),
        Token::new_token(TokenType::SEMICOLON, ";".to_string()),
        Token::new_token(TokenType::BANG, "!".to_string()),
        Token::new_token(TokenType::MINUS, "-".to_string()),
        Token::new_token(TokenType::SLASH, "/".to_string()),
        Token::new_token(TokenType::ASTERISK, "*".to_string()),
        Token::new_token(TokenType::INT(5), "5".to_string()),
        Token::new_token(TokenType::SEMICOLON, ";".to_string()),
        Token::new_token(TokenType::INT(5), "5".to_string()),
        Token::new_token(TokenType::LESSTHAN, "<".to_string()),
        Token::new_token(TokenType::INT(10), "10".to_string()),
        Token::new_token(TokenType::GREATERTHAN, ">".to_string()),
        Token::new_token(TokenType::INT(5), "5".to_string()),
        Token::new_token(TokenType::SEMICOLON, ";".to_string()),
        Token::new_token(TokenType::IF, "if".to_string()),
        Token::new_token(TokenType::LPAREN, "(".to_string()),
        Token::new_token(TokenType::INT(5), "5".to_string()),
        Token::new_token(TokenType::LESSTHAN, "<".to_string()),
        Token::new_token(TokenType::INT(10), "10".to_string()),
        Token::new_token(TokenType::RPAREN, ")".to_string()),
        Token::new_token(TokenType::LBRACE, "{".to_string()),
        Token::new_token(TokenType::RETURN, "return".to_string()),
        Token::new_token(TokenType::TRUE, "true".to_string()),
        Token::new_token(TokenType::SEMICOLON, ";".to_string()),
        Token::new_token(TokenType::RBRACE, "}".to_string()),
        Token::new_token(TokenType::ELSE, "else".to_string()),
        Token::new_token(TokenType::LBRACE, "{".to_string()),
        Token::new_token(TokenType::RETURN, "return".to_string()),
        Token::new_token(TokenType::FALSE, "false".to_string()),
        Token::new_token(TokenType::SEMICOLON, ";".to_string()),
        Token::new_token(TokenType::RBRACE, "}".to_string()),
        Token::new_token(TokenType::INT(10), "10".to_string()),
        Token::new_token(TokenType::EQUAL, "==".to_string()),
        Token::new_token(TokenType::INT(10), "10".to_string()),
        Token::new_token(TokenType::SEMICOLON, ";".to_string()),
        Token::new_token(TokenType::INT(10), "10".to_string()),
        Token::new_token(TokenType::NOTEQUAL, "!=".to_string()),
        Token::new_token(TokenType::INT(9), "9".to_string()),
        Token::new_token(TokenType::SEMICOLON, ";".to_string()),
        Token::new_token(TokenType::EOF, "".to_string()),
    ];

    for tt in tests.iter() {
        let tok = lexer.next_token();
        assert_eq!(tok.kind, tt.kind);
        assert_eq!(tok.literal, tt.literal);
    }
}

#[test]
fn test_next_token_first() {
    let input = "=+(){},;";
    let mut lexer = Lexer::new(input.to_string());

    let tests = [
        Token::new_token(TokenType::ASSIGN, "=".to_string()),
        Token::new_token(TokenType::PLUS, "+".to_string()),
        Token::new_token(TokenType::LPAREN, "(".to_string()),
        Token::new_token(TokenType::RPAREN, ")".to_string()),
        Token::new_token(TokenType::LBRACE, "{".to_string()),
        Token::new_token(TokenType::RBRACE, "}".to_string()),
        Token::new_token(TokenType::COMMA, ",".to_string()),
        Token::new_token(TokenType::SEMICOLON, ";".to_string()),
        Token::new_token(TokenType::EOF, "".to_string()),
    ];

    for tt in tests.iter() {
        let tok = lexer.next_token();
        assert_eq!(tok.kind, tt.kind);
        assert_eq!(tok.literal, tt.literal);
    }
}

#[test]
fn tokenizes_a_let_statement() {
    assert_eq!(
        kinds("let five = 5;"),
        vec![
            TokenType::LET,
            ident("five"),
            TokenType::ASSIGN,
            TokenType::INT(5),
            TokenType::SEMICOLON,
            TokenType::EOF,
        ]
    );
    assert_eq!(literals("let five = 5;"), vec!["let", "five", "=", "5", ";", ""]);
}

#[test]
fn two_character_operators_are_one_token() {
    assert_eq!(kinds("=="), vec![TokenType::EQUAL, TokenType::EOF]);
    assert_eq!(literals("=="), vec!["==", ""]);
    assert_eq!(kinds("!="), vec![TokenType::NOTEQUAL, TokenType::EOF]);
    assert_eq!(literals("!="), vec!["!=", ""]);
}

#[test]
fn operators_pair_from_the_left() {
    assert_eq!(kinds("==="), vec![TokenType::EQUAL, TokenType::ASSIGN, TokenType::EOF]);
    assert_eq!(kinds("!=="), vec![TokenType::NOTEQUAL, TokenType::ASSIGN, TokenType::EOF]);
    assert_eq!(kinds("=!"), vec![TokenType::ASSIGN, TokenType::BANG, TokenType::EOF]);
    assert_eq!(kinds("= ="), vec![TokenType::ASSIGN, TokenType::ASSIGN, TokenType::EOF]);
    assert_eq!(kinds("! ="), vec![TokenType::BANG, TokenType::ASSIGN, TokenType::EOF]);
    assert_eq!(kinds("="), vec![TokenType::ASSIGN, TokenType::EOF]);
    assert_eq!(kinds("!"), vec![TokenType::BANG, TokenType::EOF]);
}

#[test]
fn every_single_character_token_stands_alone() {
    assert_eq!(
        kinds("=+-!*/<>,;(){}"),
        vec![
            TokenType::ASSIGN,
            TokenType::PLUS,
            TokenType::MINUS,
            TokenType::BANG,
            TokenType::ASTERISK,
            TokenType::SLASH,
            TokenType::LESSTHAN,
            TokenType::GREATERTHAN,
            TokenType::COMMA,
            TokenType::SEMICOLON,
            TokenType::LPAREN,
            TokenType::RPAREN,
            TokenType::LBRACE,
            TokenType::RBRACE,
            TokenType::EOF,
        ]
    );
    assert_eq!(
        literals("=+-!*/<>,;(){}"),
        vec!["=", "+", "-", "!", "*", "/", "<", ">", ",", ";", "(", ")", "{", "}", ""]
    );
}

#[test]
fn whitespace_between_tokens_changes_nothing() {
    let tight = "let x=5;return(x+y)!=z;";
    let loose = " \t let\n\nx =\r\n 5 ;\treturn ( x\n+\ty )  !=   z ; \n";
    assert_eq!(kinds(tight), kinds(loose));
    assert_eq!(literals(tight), literals(loose));
}

#[test]
fn whitespace_inside_a_token_splits_it() {
    assert_eq!(kinds("le t"), vec![ident("le"), ident("t"), TokenType::EOF]);
    assert_eq!(kinds("1 2"), vec![TokenType::INT(1), TokenType::INT(2), TokenType::EOF]);
    assert_eq!(kinds("! ="), vec![TokenType::BANG, TokenType::ASSIGN, TokenType::EOF]);
}

#[test]
fn leading_whitespace_is_skipped() {
    assert_eq!(kinds("   \n\t let"), vec![TokenType::LET, TokenType::EOF]);
    assert_eq!(literals("   \n\t let"), vec!["let", ""]);
}

#[test]
fn end_of_input_repeats() {
    let mut lexer = Lexer::new("x  ".to_string());
    assert_eq!(lexer.next_token().kind, ident("x"));
    for _ in 0..5 {
        let token = lexer.next_token();
        assert_eq!(token.kind, TokenType::EOF);
        assert_eq!(token.literal, "");
    }
}

#[test]
fn empty_and_blank_sources_hold_no_token() {
    assert_eq!(kinds(""), vec![TokenType::EOF]);
    assert_eq!(kinds(" \t\r\n"), vec![TokenType::EOF]);
}

#[test]
fn keywords_are_matched_exactly() {
    assert_eq!(
        kinds("fn let true false if else return"),
        vec![
            TokenType::FUNCTION,
            TokenType::LET,
            TokenType::TRUE,
            TokenType::FALSE,
            TokenType::IF,
            TokenType::ELSE,
            TokenType::RETURN,
            TokenType::EOF,
        ]
    );
    assert_eq!(
        kinds("lets Let fnn iff returns tru"),
        vec![
            ident("lets"),
            ident("Let"),
            ident("fnn"),
            ident("iff"),
            ident("returns"),
            ident("tru"),
            TokenType::EOF,
        ]
    );
}

#[test]
fn identifiers_hold_letters_digits_and_underscores() {
    assert_eq!(kinds("foo_bar2 _x x1y2"), vec![
        ident("foo_bar2"),
        ident("_x"),
        ident("x1y2"),
        TokenType::EOF,
    ]);
    assert_eq!(kinds("let1"), vec![ident("let1"), TokenType::EOF]);
}

#[test]
fn a_number_ends_where_the_digits_end() {
    assert_eq!(kinds("12ab"), vec![TokenType::INT(12), ident("ab"), TokenType::EOF]);
    assert_eq!(literals("12ab"), vec!["12", "ab", ""]);
    assert_eq!(kinds("-5"), vec![TokenType::MINUS, TokenType::INT(5), TokenType::EOF]);
}

#[test]
fn integers_are_decimal() {
    assert_eq!(kinds("0"), vec![TokenType::INT(0), TokenType::EOF]);
    assert_eq!(kinds("007"), vec![TokenType::INT(7), TokenType::EOF]);
    assert_eq!(literals("007"), vec!["007", ""]);
    assert_eq!(kinds("838383"), vec![TokenType::INT(838383), TokenType::EOF]);
    assert_eq!(kinds("1234567890"), vec![TokenType::INT(1234567890), TokenType::EOF]);
}

#[test]
fn the_largest_integer_fits_and_the_next_does_not() {
    let largest = usize::MAX.to_string();
    assert_eq!(kinds(&largest), vec![TokenType::INT(usize::MAX), TokenType::EOF]);

    let mut digits: Vec<u8> = largest.bytes().collect();
    let mut index = digits.len();
    loop {
        index -= 1;
        if digits[index] == b'9' {
            digits[index] = b'0';
        } else {
            digits[index] += 1;
            break;
        }
    }
    let next = String::from_utf8(digits).unwrap();
    assert_eq!(kinds(&next), vec![TokenType::ILLEGAL, TokenType::EOF]);
    assert_eq!(literals(&next), vec![next.as_str(), ""]);

    let long = "99999999999999999999999999999999999999999999";
    assert_eq!(kinds(long), vec![TokenType::ILLEGAL, TokenType::EOF]);
    assert_eq!(literals(long), vec![long, ""]);
}

#[test]
fn unknown_characters_are_illegal() {
    assert_eq!(
        kinds("a @ b"),
        vec![ident("a"), TokenType::ILLEGAL, ident("b"), TokenType::EOF]
    );
    assert_eq!(literals("a @ b"), vec!["a", "@", "b", ""]);
    assert_eq!(kinds("\"hi\""), vec![
        TokenType::ILLEGAL,
        ident("hi"),
        TokenType::ILLEGAL,
        TokenType::EOF,
    ]);
    assert_eq!(kinds("#"), vec![TokenType::ILLEGAL, TokenType::EOF]);
}

#[test]
fn characters_outside_ascii_are_illegal_one_by_one() {
    assert_eq!(
        kinds("é½x"),
        vec![TokenType::ILLEGAL, TokenType::ILLEGAL, ident("x"), TokenType::EOF]
    );
    assert_eq!(literals("é½x"), vec!["é", "½", "x", ""]);
    assert_eq!(kinds("a\u{a0}b"), vec![
        ident("a"),
        TokenType::ILLEGAL,
        ident("b"),
        TokenType::EOF,
    ]);
}

#[test]
fn read_identifier_rests_on_the_last_character() {
    let mut lexer = Lexer::new("abc+d".to_string());
    assert_eq!(lexer.read_identifier(), "abc");
    assert_eq!(lexer.read_identifier(), "c");
    assert_eq!(lexer.next_token().kind, ident("c"));
    assert_eq!(lexer.next_token().kind, TokenType::PLUS);
}

#[test]
fn read_identifier_reads_nothing_where_no_letter_stands() {
    let mut lexer = Lexer::new("1a".to_string());
    assert_eq!(lexer.read_identifier(), "");
    assert_eq!(lexer.next_token().kind, TokenType::INT(1));

    let mut lexer = Lexer::new("".to_string());
    assert_eq!(lexer.read_identifier(), "");
    assert_eq!(lexer.next_token().kind, TokenType::EOF);
}

#[test]
fn read_number_rests_on_the_last_digit() {
    let mut lexer = Lexer::new("123;".to_string());
    assert_eq!(lexer.read_number(), "123");
    assert_eq!(lexer.read_number(), "3");
    assert_eq!(lexer.next_token().kind, TokenType::INT(3));
    assert_eq!(lexer.next_token().kind, TokenType::SEMICOLON);
}

#[test]
fn read_number_reads_nothing_where_no_digit_stands() {
    let mut lexer = Lexer::new("x1".to_string());
    assert_eq!(lexer.read_number(), "");
    assert_eq!(lexer.next_token().kind, ident("x1"));
}

#[test]
fn letters_are_ascii_letters_and_the_underscore() {
    for ch in ['a', 'm', 'z', 'A', 'M', 'Z', '_'] {
        assert!(is_letter(ch));
    }
    for ch in ['0', '9', ' ', '-', '@', '[', '`', '{', 'é', 'λ'] {
        assert!(!is_letter(ch));
    }
}

#[test]
fn digits_are_zero_to_nine() {
    for ch in ['0', '1', '5', '9'] {
        assert!(is_digit(ch));
    }
    for ch in ['/', ':', 'a', '_', ' ', '½', '٣'] {
        assert!(!is_digit(ch));
    }
}

#[test]
fn tokenize_gives_what_the_lexer_hands_out() {
    let input = "let add = fn(x, y) { x + y; }; 10 != 9 @";
    let mut lexer = Lexer::new(input.to_string());
    let list = tokenize(input.to_string());
    assert_eq!(list.len(), 21);
    for (index, token) in list.iter().enumerate() {
        assert_eq!(*token, lexer.next_token());
        assert_eq!(token.kind == TokenType::EOF, index + 1 == list.len());
    }
}

#[test]
fn tokenize_ends_an_empty_source_at_once() {
    assert_eq!(tokenize(String::new()), vec![Token::new_token(TokenType::EOF, String::new())]);
}

/// A small deterministic generator of test data.
struct Sequence(u64);

impl Sequence {
    fn next(&mut self, bound: usize) -> usize {
        self.0 = self.0.wrapping_mul(6364136223846793005).wrapping_add(1442695040888963407);
        ((self.0 >> 33) as usize) % bound
    }
}

#[test]
fn texts_of_single_character_tokens_are_read_character_by_character() {
    let symbols: Vec<char> = "=+-!*/<>,;(){}".chars().collect();
    let mut sequence = Sequence(7);
    for _ in 0..200 {
        let length = sequence.next(12);
        let mut text = String::new();
        let mut last = ' ';
        while text.chars().count() < length {
            let ch = symbols[sequence.next(symbols.len())];
            if ch == '=' && (last == '=' || last == '!') {
                continue;
            }
            text.push(ch);
            last = ch;
        }
        let mut expected: Vec<Token> = Vec::new();
        for ch in text.chars() {
            let single = tokenize(ch.to_string());
            assert_eq!(single.len(), 2);
            assert_eq!(single[0].literal, ch.to_string());
            expected.push(single[0].clone());
        }
        expected.push(Token::new_token(TokenType::EOF, String::new()));
        assert_eq!(tokenize(text), expected);
    }
}

#[test]
fn whitespace_put_in_between_tokens_changes_no_token() {
    let source =
        "let five=5;\nlet add = fn(x, y) { x+y; };\tif (a1 != _b) { return !true==false } 12ab @";
    let tokens = tokenize(source.to_string());
    let blanks = [' ', '\t', '\n', '\r'];
    let mut sequence = Sequence(11);
    for _ in 0..200 {
        let mut spaced = String::new();
        let mut rest = source;
        for token in tokens.iter() {
            let gap = rest.len() - rest.trim_start_matches(&blanks[..]).len();
            spaced.push_str(&rest[..gap]);
            for _ in 0..sequence.next(4) {
                spaced.push(blanks[sequence.next(blanks.len())]);
            }
            rest = &rest[gap..];
            assert!(rest.starts_with(token.literal.as_str()));
            spaced.push_str(&token.literal);
            rest = &rest[token.literal.len()..];
        }
        assert_eq!(rest, "");
        assert_eq!(tokenize(spaced), tokens);
    }
}
