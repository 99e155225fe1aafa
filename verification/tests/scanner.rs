use arc::scanner::{number_literals, word_type, CharClass, Scanner};
use arc::token::{Token, TokenType};

fn scan_all(source: &str) -> Vec<Token> {
    let mut scanner = Scanner::new(source.to_string());
    let mut tokens = Vec::new();
    loop {
        let token = scanner.scan_token();
        let done = token.token_type == TokenType::EOF;
        tokens.push(token);
        if done {
            return tokens;
        }
    }
}

fn kinds(source: &str) -> Vec<TokenType> {
    scan_all(source).iter().map(|token| token.token_type).collect()
}

fn lexemes(source: &str) -> Vec<String> {
    scan_all(source).iter().map(|token| token.lexeme.clone()).collect()
}

#[test]
fn empty_source_is_eof() {
    let tokens = scan_all("");
    assert_eq!(tokens.len(), 1);
    assert_eq!(tokens[0].token_type, TokenType::EOF);
    assert_eq!(tokens[0].lexeme, "");
    assert_eq!(tokens[0].line, 1);
}

#[test]
fn eof_is_returned_again_and_again() {
    let mut scanner = Scanner::new("x".to_string());
    assert_eq!(scanner.scan_token().token_type, TokenType::Identifier);
    for _ in 0..5 {
        let token = scanner.scan_token();
        assert_eq!(token.token_type, TokenType::EOF);
        assert_eq!(token.lexeme, "");
    }
}

#[test]
fn single_character_tokens() {
    assert_eq!(
        kinds("(){};,.-+/*"),
        vec![
            TokenType::LeftParen,
            TokenType::RightParen,
            TokenType::LeftBrace,
            TokenType::RightBrace,
            TokenType::Semicolon,
            TokenType::Comma,
            TokenType::Dot,
            TokenType::Minus,
            TokenType::Plus,
            TokenType::Slash,
            TokenType::Star,
            TokenType::EOF,
        ]
    );
}

#[test]
fn one_and_two_character_operators() {
    assert_eq!(
        kinds("! != = == < <= > >="),
        vec![
            TokenType::Bang,
            TokenType::BangEqual,
            TokenType::Equal,
            TokenType::EqualEqual,
            TokenType::Less,
            TokenType::LessEqual,
            TokenType::Greater,
            TokenType::GreaterEqual,
            TokenType::EOF,
        ]
    );
    assert_eq!(lexemes("!= <="), vec!["!=", "<=", ""]);
}

#[test]
fn operator_at_the_end_of_the_text() {
    assert_eq!(kinds("!"), vec![TokenType::Bang, TokenType::EOF]);
    assert_eq!(kinds("="), vec![TokenType::Equal, TokenType::EOF]);
    assert_eq!(kinds("==="), vec![TokenType::EqualEqual, TokenType::Equal, TokenType::EOF]);
}

#[test]
fn every_reserved_word() {
    assert_eq!(
        kinds("and class else false fn for if nil or print return super this true var while"),
        vec![
            TokenType::And,
            TokenType::Class,
            TokenType::Else,
            TokenType::False,
            TokenType::Fn,
            TokenType::For,
            TokenType::If,
            TokenType::Nil,
            TokenType::Or,
            TokenType::Print,
            TokenType::Return,
            TokenType::Super,
            TokenType::This,
            TokenType::True,
            TokenType::Var,
            TokenType::While,
            TokenType::EOF,
        ]
    );
}

#[test]
fn words_close_to_reserved_words_are_identifiers() {
    let words = "an andy clas classes els f fa fn1 fnn fo fore i iff ni nill o orr prin \
                 printer retur returns supe t th thi thiss tr tru trues va vars whil whiles \
                 And PRINT x";
    let found = kinds(words);
    assert_eq!(found.len(), words.split_whitespace().count() + 1);
    for kind in &found[..found.len() - 1] {
        assert_eq!(*kind, TokenType::Identifier);
    }
}

#[test]
fn identifier_continues_over_letters_and_digits_only() {
    assert_eq!(lexemes("ab1 x"), vec!["ab1", "x", ""]);
    assert_eq!(lexemes("foo_bar"), vec!["foo", "_bar", ""]);
    assert_eq!(kinds("foo_bar"), vec![TokenType::Identifier, TokenType::Identifier, TokenType::EOF]);
    assert_eq!(lexemes("_x9+"), vec!["_x9", "+", ""]);
}

#[test]
fn identifier_takes_alphanumeric_characters_beyond_ascii() {
    let tokens = scan_all("caf\u{e9}2 z");
    assert_eq!(tokens[0].token_type, TokenType::Identifier);
    assert_eq!(tokens[0].lexeme, "caf\u{e9}2");
    assert_eq!(tokens[1].lexeme, "z");
}

#[test]
fn character_classes() {
    assert!(CharClass::Digit.contains('0'));
    assert!(CharClass::Digit.contains('9'));
    assert!(!CharClass::Digit.contains('a'));
    assert!(!CharClass::Digit.contains('\u{0661}'));
    assert!(CharClass::Alphanumeric.contains('a'));
    assert!(CharClass::Alphanumeric.contains('7'));
    assert!(CharClass::Alphanumeric.contains('\u{e9}'));
    assert!(!CharClass::Alphanumeric.contains('_'));
    assert!(!CharClass::Alphanumeric.contains(' '));
    assert!(CharClass::NotNewline.contains('x'));
    assert!(!CharClass::NotNewline.contains('\n'));
}

#[test]
fn number_literals_with_and_without_fraction() {
    assert_eq!(lexemes("123"), vec!["123", ""]);
    assert_eq!(lexemes("12.5"), vec!["12.5", ""]);
    assert_eq!(lexemes("1.5"), vec!["1.5", ""]);
    assert_eq!(kinds("1.5"), vec![TokenType::Number, TokenType::EOF]);
    assert_eq!(lexemes("0.25+3"), vec!["0.25", "+", "3", ""]);
}

#[test]
fn trailing_dot_is_not_part_of_a_number() {
    assert_eq!(lexemes("7."), vec!["7", ".", ""]);
    assert_eq!(kinds("7."), vec![TokenType::Number, TokenType::Dot, TokenType::EOF]);
    assert_eq!(lexemes("7.x"), vec!["7", ".", "x", ""]);
}

#[test]
fn a_number_has_at_most_one_fraction() {
    assert_eq!(lexemes("1.2.3"), vec!["1.2", ".", "3", ""]);
}

#[test]
fn string_literal_keeps_its_quotes() {
    let tokens = scan_all("\"hi there\"");
    assert_eq!(tokens[0].token_type, TokenType::String);
    assert_eq!(tokens[0].lexeme, "\"hi there\"");
    assert_eq!(tokens[0].line, 1);
    assert_eq!(tokens[1].token_type, TokenType::EOF);
}

#[test]
fn empty_string_literal() {
    let tokens = scan_all("\"\"");
    assert_eq!(tokens[0].token_type, TokenType::String);
    assert_eq!(tokens[0].lexeme, "\"\"");
}

#[test]
fn string_literal_may_span_lines() {
    let tokens = scan_all("\"a\nb\nc\" x");
    assert_eq!(tokens[0].token_type, TokenType::String);
    assert_eq!(tokens[0].lexeme, "\"a\nb\nc\"");
    assert_eq!(tokens[0].line, 3);
    assert_eq!(tokens[1].token_type, TokenType::Identifier);
    assert_eq!(tokens[1].line, 3);
}

#[test]
fn unterminated_string_is_an_error_token() {
    let tokens = scan_all("x \"abc\ndef");
    assert_eq!(tokens[0].token_type, TokenType::Identifier);
    assert_eq!(tokens[1].token_type, TokenType::Error);
    assert_eq!(tokens[1].lexeme, "Unterminated string.");
    assert_eq!(tokens[1].line, 2);
    assert_eq!(tokens[2].token_type, TokenType::EOF);
}

#[test]
fn unexpected_character_is_an_error_token() {
    let tokens = scan_all("a @ b");
    assert_eq!(tokens[1].token_type, TokenType::Error);
    assert_eq!(tokens[1].lexeme, "Unexpected character.");
    assert_eq!(tokens[1].line, 1);
    assert_eq!(tokens[2].token_type, TokenType::Identifier);
    assert_eq!(tokens[2].lexeme, "b");
}

#[test]
fn character_beyond_ascii_cannot_start_a_token() {
    let tokens = scan_all("\u{e9}");
    assert_eq!(tokens[0].token_type, TokenType::Error);
    assert_eq!(tokens[0].lexeme, "Unexpected character.");
    assert_eq!(tokens[1].token_type, TokenType::EOF);
}

#[test]
fn whitespace_is_skipped_and_lines_are_counted() {
    let tokens = scan_all(" \t\r\n  a\n\n b");
    assert_eq!(tokens[0].lexeme, "a");
    assert_eq!(tokens[0].line, 2);
    assert_eq!(tokens[1].lexeme, "b");
    assert_eq!(tokens[1].line, 4);
    assert_eq!(tokens[2].token_type, TokenType::EOF);
    assert_eq!(tokens[2].line, 4);
}

#[test]
fn comments_run_to_the_end_of_the_line() {
    let tokens = scan_all("a // b c d\n// only a comment\nprint // tail");
    assert_eq!(tokens.len(), 3);
    assert_eq!(tokens[0].lexeme, "a");
    assert_eq!(tokens[1].token_type, TokenType::Print);
    assert_eq!(tokens[1].line, 3);
    assert_eq!(tokens[2].token_type, TokenType::EOF);
    assert_eq!(tokens[2].line, 3);
}

#[test]
fn a_single_slash_is_a_token() {
    assert_eq!(kinds("a / b"), vec![
        TokenType::Identifier,
        TokenType::Slash,
        TokenType::Identifier,
        TokenType::EOF,
    ]);
    assert_eq!(kinds("/"), vec![TokenType::Slash, TokenType::EOF]);
}

#[test]
fn scanner_starts_on_line_one() {
    let scanner = Scanner::new("a\nb".to_string());
    assert_eq!(scanner.line(), 1);
}

#[test]
fn line_counter_follows_the_scan() {
    let mut scanner = Scanner::new("a\nb\n".to_string());
    scanner.scan_token();
    assert_eq!(scanner.line(), 1);
    scanner.scan_token();
    assert_eq!(scanner.line(), 2);
    scanner.scan_token();
    assert_eq!(scanner.line(), 3);
}

#[test]
fn advance_consumes_one_character() {
    let mut scanner = Scanner::new("xy".to_string());
    assert_eq!(scanner.advance(), 'x');
    assert_eq!(scanner.advance(), 'y');
    assert_eq!(scanner.scan_token().token_type, TokenType::EOF);
}

#[test]
fn number_literals_are_listed_in_order() {
    assert_eq!(
        number_literals("print 1 + 2.5; var x = 10; // 99\nprint \"7\" + x1;".to_string()),
        vec!["1", "2.5", "10"]
    );
    assert_eq!(number_literals("print nil;".to_string()), Vec::<String>::new());
    assert_eq!(number_literals("3 @ 4".to_string()), vec!["3", "4"]);
}

#[test]
fn a_statement_scans_to_its_tokens() {
    assert_eq!(
        kinds("var answer = (40 + 2) >= 42;"),
        vec![
            TokenType::Var,
            TokenType::Identifier,
            TokenType::Equal,
            TokenType::LeftParen,
            TokenType::Number,
            TokenType::Plus,
            TokenType::Number,
            TokenType::RightParen,
            TokenType::GreaterEqual,
            TokenType::Number,
            TokenType::Semicolon,
            TokenType::EOF,
        ]
    );
}

fn word(text: &str) -> TokenType {
    let chars: Vec<char> = text.chars().collect();
    word_type(&chars, 0, chars.len())
}

#[test]
fn reserved_words_are_recognised_in_a_word() {
    assert_eq!(word("and"), TokenType::And);
    assert_eq!(word("class"), TokenType::Class);
    assert_eq!(word("else"), TokenType::Else);
    assert_eq!(word("false"), TokenType::False);
    assert_eq!(word("fn"), TokenType::Fn);
    assert_eq!(word("for"), TokenType::For);
    assert_eq!(word("if"), TokenType::If);
    assert_eq!(word("nil"), TokenType::Nil);
    assert_eq!(word("or"), TokenType::Or);
    assert_eq!(word("print"), TokenType::Print);
    assert_eq!(word("return"), TokenType::Return);
    assert_eq!(word("super"), TokenType::Super);
    assert_eq!(word("this"), TokenType::This);
    assert_eq!(word("true"), TokenType::True);
    assert_eq!(word("var"), TokenType::Var);
    assert_eq!(word("while"), TokenType::While);
    assert_eq!(word(""), TokenType::Identifier);
    assert_eq!(word("f"), TokenType::Identifier);
    assert_eq!(word("fnn"), TokenType::Identifier);
    assert_eq!(word("prinT"), TokenType::Identifier);
    assert_eq!(word("x"), TokenType::Identifier);
}

#[test]
fn a_word_is_a_part_of_the_characters() {
    let chars: Vec<char> = "xxprintvar".chars().collect();
    assert_eq!(word_type(&chars, 2, 7), TokenType::Print);
    assert_eq!(word_type(&chars, 7, 10), TokenType::Var);
    assert_eq!(word_type(&chars, 2, 6), TokenType::Identifier);
    assert_eq!(word_type(&chars, 0, 10), TokenType::Identifier);
    assert_eq!(word_type(&chars, 4, 4), TokenType::Identifier);
}

#[test]
fn a_nul_character_does_not_end_the_text() {
    let tokens = scan_all("a\0b");
    assert_eq!(tokens.len(), 4);
    assert_eq!(tokens[0].lexeme, "a");
    assert_eq!(tokens[1].token_type, TokenType::Error);
    assert_eq!(tokens[1].lexeme, "Unexpected character.");
    assert_eq!(tokens[2].lexeme, "b");
    assert_eq!(tokens[3].token_type, TokenType::EOF);
}

#[test]
fn carriage_returns_are_blanks() {
    let tokens = scan_all("a\r\nb\r\n");
    assert_eq!(tokens[0].line, 1);
    assert_eq!(tokens[1].lexeme, "b");
    assert_eq!(tokens[1].line, 2);
    assert_eq!(tokens[2].token_type, TokenType::EOF);
    assert_eq!(tokens[2].line, 3);
}

#[test]
fn a_long_text_is_scanned() {
    let source = "var x = 12.5; // note\n".repeat(20_000);
    let tokens = scan_all(&source);
    assert_eq!(tokens.len(), 5 * 20_000 + 1);
    assert_eq!(tokens[tokens.len() - 2].token_type, TokenType::Semicolon);
    assert_eq!(tokens[tokens.len() - 2].line, 20_000);
    assert_eq!(tokens[tokens.len() - 1].line, 20_001);
}
