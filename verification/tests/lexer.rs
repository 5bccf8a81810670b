use robot_dsl::lexer::{Lexer, LexicalError};
use robot_dsl::tokens::Token;

fn test_token(input: &str, expected_token: Token) {
    let mut lexer = Lexer::new(input);
    if let Some(Ok((_, token, _))) = lexer.next() {
        assert_eq!(token, expected_token);
    }
}

fn all(input: &str) -> Vec<Result<(usize, Token, usize), LexicalError>> {
    let mut lexer = Lexer::new(input);
    let mut found = Vec::new();
    while let Some(item) = lexer.next() {
        found.push(item);
        assert!(found.len() <= input.len());
    }
    found
}

fn tokens(input: &str) -> Vec<Token> {
    all(input).into_iter().map(|item| item.unwrap().1).collect()
}

fn identifier(name: &str) -> Token {
    Token::Identifier(name.to_string())
}

#[test]
fn test_keywords_lexing() {
    test_token("global", Token::KeywordGlobal);
    test_token("fn", Token::KeywordFn);
    test_token("speak", Token::KeywordSpeak);
    test_token("input", Token::KeywordInput);
    test_token("if", Token::KeywordIf);
    test_token("exit", Token::KeywordExit);
}

#[test]
fn test_single_lexing() {
    test_token("(", Token::LParen);
    test_token(")", Token::RParen);
    test_token("=", Token::Assign);
    test_token(";", Token::Semicolon);
    test_token("{", Token::LBracket);
    test_token("}", Token::RBracket);
}

#[test]
fn test_operators_lexing() {
    test_token("+", Token::OperatorAdd);
    test_token("-", Token::OperatorSub);
    test_token("*", Token::OperatorMul);
    test_token("/", Token::OperatorDiv);
}

#[test]
fn test_literals_lexing() {
    test_token("identifier123", Token::Identifier("identifier123".to_string()));
    test_token("identifier123", Token::Identifier("identifier123".to_string()));
    test_token("_underscore", Token::Identifier("_underscore".to_string()));
    test_token("CamelCase", Token::Identifier("CamelCase".to_string()));
    test_token("leadingDigit123", Token::Identifier("leadingDigit123".to_string()));
    test_token("mixed_Case123", Token::Identifier("mixed_Case123".to_string()));

    test_token("123.456", Token::Number("123.456".to_string()));
    test_token("0.5", Token::Number("0.5".to_string()));
    test_token("1.0", Token::Number("1.0".to_string()));
    test_token("2.5", Token::Number("2.5".to_string()));

    test_token("\"This is a string\"", Token::StringContent("This is a string".to_string()));
    test_token("\"Empty string: \"\"", Token::StringContent("Empty string: ".to_string()));

    test_token("这是中文", Token::Identifier("这是中文".to_string()));
    test_token("中文标识符123", Token::Identifier("中文标识符123".to_string()));
    test_token("数字：123", Token::Identifier("数字：123".to_string()));
    // A word runs up to the quote: the string is the second token.
    assert_eq!(
        tokens("字符串：\"中文字符串\""),
        vec![identifier("字符串："), Token::StringContent("中文字符串".to_string())]
    );
}

#[test]
fn test_program_lexing() {
    let input_program = "\
# a greeting
global name = \"\";
fn test() {
    speak \"123321\";
}
loop {
    speak \"321123\";
    exit;
}
";
    let mut lexer = Lexer::new(input_program);
    let expected_tokens = vec![
        Token::KeywordGlobal,
        Token::Identifier("name".to_string()),
        Token::Assign,
        Token::StringContent("".to_string()),
        Token::Semicolon,
        Token::KeywordFn,
        Token::Identifier("test".to_string()),
        Token::LParen,
        Token::RParen,
        Token::LBracket,
        Token::KeywordSpeak,
        Token::StringContent("123321".to_string()),
        Token::Semicolon,
        Token::RBracket,
        Token::KeywordLoop,
        Token::LBracket,
        Token::KeywordSpeak,
        Token::StringContent("321123".to_string()),
        Token::Semicolon,
        Token::KeywordExit,
        Token::Semicolon,
        Token::RBracket,
    ];
    for expected_token in expected_tokens {
        let token = lexer.next().unwrap().unwrap().1;
        assert_eq!(token, expected_token);
    }
    assert!(lexer.next().is_none());
}

#[test]
fn non_ascii_words_are_identifiers() {
    assert_eq!(tokens("这是中文"), vec![identifier("这是中文")]);
    assert_eq!(tokens("中文标识符123 x"), vec![identifier("中文标识符123"), identifier("x")]);
    assert_eq!(tokens("数字：123"), vec![identifier("数字：123")]);
    assert_eq!(tokens("données=é"), vec![identifier("données"), Token::Assign, identifier("é")]);
}

#[test]
fn keywords_ignore_case_and_identifiers_keep_it() {
    assert_eq!(
        tokens("GLOBAL Global gLoBaL FN Speak INPUT If EXIT Loop"),
        vec![
            Token::KeywordGlobal,
            Token::KeywordGlobal,
            Token::KeywordGlobal,
            Token::KeywordFn,
            Token::KeywordSpeak,
            Token::KeywordInput,
            Token::KeywordIf,
            Token::KeywordExit,
            Token::KeywordLoop,
        ]
    );
    assert_eq!(tokens("Name"), vec![identifier("Name")]);
}

#[test]
fn a_word_is_as_long_as_it_can_be() {
    assert_eq!(tokens("globalx"), vec![identifier("globalx")]);
    assert_eq!(tokens("if_"), vec![identifier("if_")]);
    assert_eq!(tokens("exit1"), vec![identifier("exit1")]);
    assert_eq!(tokens("loop;"), vec![Token::KeywordLoop, Token::Semicolon]);
}

#[test]
fn equality_is_one_token() {
    assert_eq!(
        tokens("a==b"),
        vec![identifier("a"), Token::WEqual, identifier("b")]
    );
    assert_eq!(tokens("= =="), vec![Token::Assign, Token::WEqual]);
    assert_eq!(tokens("==="), vec![Token::WEqual, Token::Assign]);
}

#[test]
fn offsets_count_bytes() {
    assert_eq!(
        all("  speak \"你好\" ;"),
        vec![
            Ok((2, Token::KeywordSpeak, 7)),
            Ok((8, Token::StringContent("你好".to_string()), 16)),
            Ok((17, Token::Semicolon, 18)),
        ]
    );
    assert_eq!(all("é+1.5"), vec![
        Ok((0, identifier("é"), 2)),
        Ok((2, Token::OperatorAdd, 3)),
        Ok((3, Token::Number("1.5".to_string()), 6)),
    ]);
}

#[test]
fn blanks_and_comments_are_skipped() {
    assert_eq!(all(""), vec![]);
    assert_eq!(all(" \t\r\n\x0c"), vec![]);
    assert_eq!(all("# only a comment"), vec![]);
    assert_eq!(all("# one\n# two\n"), vec![]);
    assert_eq!(
        all("x # trailing \"words\" = 1.0\ny"),
        vec![Ok((0, identifier("x"), 1)), Ok((27, identifier("y"), 28))]
    );
}

#[test]
fn a_number_needs_a_fraction() {
    assert_eq!(
        all("42"),
        vec![Err(LexicalError::InvalidToken), Err(LexicalError::InvalidToken)]
    );
    assert_eq!(
        all("7."),
        vec![Err(LexicalError::InvalidToken), Err(LexicalError::InvalidToken)]
    );
    assert_eq!(
        all(".5"),
        vec![Err(LexicalError::InvalidToken), Err(LexicalError::InvalidToken)]
    );
    assert_eq!(
        all("1.5.25"),
        vec![
            Ok((0, Token::Number("1.5".to_string()), 3)),
            Err(LexicalError::InvalidToken),
            Err(LexicalError::InvalidToken),
            Err(LexicalError::InvalidToken),
        ]
    );
    assert_eq!(tokens("007.250"), vec![Token::Number("007.250".to_string())]);
}

#[test]
fn a_string_needs_its_closing_quote() {
    assert_eq!(
        all("\"open"),
        vec![Err(LexicalError::InvalidToken), Ok((1, identifier("open"), 5))]
    );
    assert_eq!(tokens("\"\""), vec![Token::StringContent(String::new())]);
    assert_eq!(
        tokens("\"a # b\nc\""),
        vec![Token::StringContent("a # b\nc".to_string())]
    );
}

#[test]
fn what_matches_nothing_is_an_error() {
    for source in ["!", "@", "[", "]", ",", ".", "<", ">", "'", "\\", "%"] {
        assert_eq!(all(source), vec![Err(LexicalError::InvalidToken)], "{}", source);
    }
    assert_eq!(
        all("a ! b"),
        vec![
            Ok((0, identifier("a"), 1)),
            Err(LexicalError::InvalidToken),
            Ok((4, identifier("b"), 5)),
        ]
    );
}

#[test]
fn the_error_has_a_message() {
    assert_eq!(LexicalError::InvalidToken.message(), "Invalid token encountered.");
}

#[test]
fn the_rest_is_every_lexeme_in_order() {
    let source = "global x = 1.5; # set\nspeak \"你好\" ! x";
    let mut lexer = Lexer::new(source);
    assert_eq!(lexer.next(), Some(Ok((0, Token::KeywordGlobal, 6))));
    assert_eq!(
        lexer.rest(),
        vec![
            Ok((7, identifier("x"), 8)),
            Ok((9, Token::Assign, 10)),
            Ok((11, Token::Number("1.5".to_string()), 14)),
            Ok((14, Token::Semicolon, 15)),
            Ok((22, Token::KeywordSpeak, 27)),
            Ok((28, Token::StringContent("你好".to_string()), 36)),
            Err(LexicalError::InvalidToken),
            Ok((39, identifier("x"), 40)),
        ]
    );
    assert_eq!(lexer.next(), None);
    assert_eq!(lexer.rest(), vec![]);
    assert_eq!(Lexer::new(source).rest(), all(source));
}
