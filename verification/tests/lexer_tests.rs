use ducklex::lexer::lexer;
use ducklex::model::Context;
use ducklex::model::FmtStringContents;
use ducklex::model::LexError;
use ducklex::model::LexErrorKind;
use ducklex::model::Span;
use ducklex::model::Token;
use ducklex::normalize::empty_span;
use ducklex::normalize::token_empty_range;

fn lex_str(src: &str) -> Result<Vec<(Token, Span)>, LexError> {
    let chars: Vec<char> = src.chars().collect();
    let ctx = Context::new(String::from("test"), src.chars().collect());
    lexer(&chars, &ctx)
}

fn lex_tokens(src: &str) -> Vec<Token> {
    let result = lex_str(src);
    assert_eq!(result.is_err(), false, "{}", src);
    result
        .unwrap()
        .into_iter()
        .map(|pair| {
            let mut pair = pair;
            token_empty_range(&mut pair);
            pair.0
        })
        .collect()
}

#[test]
fn test_lex() {
    let test_cases = vec![
        (
            "f\"{{{1}}}\"",
            vec![Token::FormatStringLiteral(vec![FmtStringContents::Tokens(
                vec![
                    (Token::ControlChar('{'), empty_span()),
                    (Token::ControlChar('{'), empty_span()),
                    (Token::IntLiteral(1), empty_span()),
                    (Token::ControlChar('}'), empty_span()),
                    (Token::ControlChar('}'), empty_span()),
                ],
            )])],
        ),
        (
            "f\"{1}\"",
            vec![Token::FormatStringLiteral(vec![FmtStringContents::Tokens(
                vec![(Token::IntLiteral(1), empty_span())],
            )])],
        ),
        (
            "type Y = duck {};",
            vec![
                Token::Type,
                Token::Ident("Y".to_string()),
                Token::ControlChar('='),
                Token::Duck,
                Token::ControlChar('{'),
                Token::ControlChar('}'),
                Token::ControlChar(';'),
            ],
        ),
        (
            "typeY=duck{};",
            vec![
                Token::Ident("typeY".to_string()),
                Token::ControlChar('='),
                Token::Duck,
                Token::ControlChar('{'),
                Token::ControlChar('}'),
                Token::ControlChar(';'),
            ],
        ),
        (
            "type Y = duck {} & duck {};",
            vec![
                Token::Type,
                Token::Ident("Y".to_string()),
                Token::ControlChar('='),
                Token::Duck,
                Token::ControlChar('{'),
                Token::ControlChar('}'),
                Token::ControlChar('&'),
                Token::Duck,
                Token::ControlChar('{'),
                Token::ControlChar('}'),
                Token::ControlChar(';'),
            ],
        ),
        (
            "type Y = duck { x: String, y: String };",
            vec![
                Token::Type,
                Token::Ident("Y".to_string()),
                Token::ControlChar('='),
                Token::Duck,
                Token::ControlChar('{'),
                Token::Ident("x".to_string()),
                Token::ControlChar(':'),
                Token::Ident("String".to_string()),
                Token::ControlChar(','),
                Token::Ident("y".to_string()),
                Token::ControlChar(':'),
                Token::Ident("String".to_string()),
                Token::ControlChar('}'),
                Token::ControlChar(';'),
            ],
        ),
        ("()", vec![Token::ControlChar('('), Token::ControlChar(')')]),
        ("->", vec![Token::ThinArrow]),
        ("fn", vec![Token::Function]),
        ("\"\"", vec![Token::StringLiteral(String::from(""))]),
        ("\"XX\"", vec![Token::StringLiteral(String::from("XX"))]),
        (
            "\"X\\\"X\"",
            vec![Token::StringLiteral(String::from("X\"X"))],
        ),
        (
            "\"Hallo ich bin ein String\\n\\n\\nNeue Zeile\"",
            vec![Token::StringLiteral(String::from(
                "Hallo ich bin ein String\n\n\nNeue Zeile",
            ))],
        ),
        ("1", vec![Token::IntLiteral(1)]),
        ("2003", vec![Token::IntLiteral(2003)]),
        ("true", vec![Token::BoolLiteral(true)]),
        ("false", vec![Token::BoolLiteral(false)]),
        ("go { {} }", vec![Token::InlineGo(String::from(" {} "))]),
        ("go { xx }", vec![Token::InlineGo(String::from(" xx "))]),
        ("go {}", vec![Token::InlineGo(String::from(""))]),
        ("go {{}{}{}}", vec![Token::InlineGo(String::from("{}{}{}"))]),
        (
            "if (true) {}",
            vec![
                Token::If,
                Token::ControlChar('('),
                Token::BoolLiteral(true),
                Token::ControlChar(')'),
                Token::ControlChar('{'),
                Token::ControlChar('}'),
            ],
        ),
        (
            "if (true) {} else {}",
            vec![
                Token::If,
                Token::ControlChar('('),
                Token::BoolLiteral(true),
                Token::ControlChar(')'),
                Token::ControlChar('{'),
                Token::ControlChar('}'),
                Token::Else,
                Token::ControlChar('{'),
                Token::ControlChar('}'),
            ],
        ),
        (
            "if (true) {} else if {} else if {} else {}",
            vec![
                Token::If,
                Token::ControlChar('('),
                Token::BoolLiteral(true),
                Token::ControlChar(')'),
                Token::ControlChar('{'),
                Token::ControlChar('}'),
                Token::Else,
                Token::If,
                Token::ControlChar('{'),
                Token::ControlChar('}'),
                Token::Else,
                Token::If,
                Token::ControlChar('{'),
                Token::ControlChar('}'),
                Token::Else,
                Token::ControlChar('{'),
                Token::ControlChar('}'),
            ],
        ),
        ("'c'", vec![Token::CharLiteral('c')]),
        ("'\\n'", vec![Token::CharLiteral('\n')]),
        ("1.1", vec![Token::FloatLiteral(1, String::from("1"))]),
        (
            "let x: {};",
            vec![
                Token::Let,
                Token::Ident("x".to_string()),
                Token::ControlChar(':'),
                Token::ControlChar('{'),
                Token::ControlChar('}'),
                Token::ControlChar(';'),
            ],
        ),
        (
            "f\"FMT {var}\"",
            vec![Token::FormatStringLiteral(vec![
                FmtStringContents::Char('F'),
                FmtStringContents::Char('M'),
                FmtStringContents::Char('T'),
                FmtStringContents::Char(' '),
                FmtStringContents::Tokens(vec![(Token::Ident("var".into()), empty_span())]),
            ])],
        ),
    ];

    for (src, expected_tokens) in test_cases {
        let parse_result = lex_str(src);

        assert_eq!(parse_result.is_err(), false, "{}", src);

        let output: Vec<Token> = parse_result
            .unwrap()
            .into_iter()
            .map(|token| {
                let mut cloned = token;
                token_empty_range(&mut cloned);
                cloned.0
            })
            .collect();

        assert_eq!(output, expected_tokens, "{}", src);
    }
}

#[test]
fn single_identifier_whole_input() {
    assert_eq!(lex_tokens("typeY"), vec![Token::Ident("typeY".to_string())]);
    assert_eq!(lex_tokens("x"), vec![Token::Ident("x".to_string())]);
    assert_eq!(lex_tokens("_under_score9"), vec![Token::Ident("_under_score9".to_string())]);
    assert_eq!(lex_tokens("type"), vec![Token::Type]);
    assert_eq!(lex_tokens("continue"), vec![Token::Continue]);
    assert_eq!(lex_tokens("module"), vec![Token::Module]);
    assert_eq!(lex_tokens("gopher"), vec![Token::Ident("gopher".to_string())]);
}

#[test]
fn arrows_and_scope_res_are_single_tokens() {
    assert_eq!(lex_tokens("->"), vec![Token::ThinArrow]);
    assert_eq!(lex_tokens("::"), vec![Token::ScopeRes]);
    assert_eq!(
        lex_tokens("a->b"),
        vec![
            Token::Ident("a".to_string()),
            Token::ThinArrow,
            Token::Ident("b".to_string()),
        ]
    );
    assert_eq!(
        lex_tokens("a::b"),
        vec![
            Token::Ident("a".to_string()),
            Token::ScopeRes,
            Token::Ident("b".to_string()),
        ]
    );
    assert_eq!(lex_tokens("=="), vec![Token::Equals]);
    assert_eq!(lex_tokens("-"), vec![Token::ControlChar('-')]);
    assert_eq!(lex_tokens(":"), vec![Token::ControlChar(':')]);
}

#[test]
fn float_is_one_token() {
    assert_eq!(lex_tokens("1.1"), vec![Token::FloatLiteral(1, String::from("1"))]);
    assert_eq!(
        lex_tokens("2003.25"),
        vec![Token::FloatLiteral(2003, String::from("25"))]
    );
    // no digit after the dot: the dot is a control character of its own
    assert_eq!(
        lex_tokens("1."),
        vec![Token::IntLiteral(1), Token::ControlChar('.')]
    );
    assert_eq!(
        lex_tokens(".5"),
        vec![Token::ControlChar('.'), Token::IntLiteral(5)]
    );
}

#[test]
fn string_escape_round_trip() {
    assert_eq!(
        lex_tokens("\"X\\\"X\""),
        vec![Token::StringLiteral(String::from("X\"X"))]
    );
    assert_eq!(
        lex_tokens("\"\\n\""),
        vec![Token::StringLiteral(String::from("\n"))]
    );
    assert_eq!(
        lex_tokens("\"\\t\\\\\""),
        vec![Token::StringLiteral(String::from("\t\\"))]
    );
}

#[test]
fn unterminated_string_reports_opening_quote() {
    let err = lex_str("\"abc").unwrap_err();
    assert_eq!(err.kind, LexErrorKind::UnterminatedLiteral);
    assert_eq!(err.start, 0);
    assert_eq!(err.end, 4);

    let err = lex_str("x \"abc").unwrap_err();
    assert_eq!(err.kind, LexErrorKind::UnterminatedLiteral);
    assert_eq!(err.start, 2);
    assert_eq!(err.end, 6);
}

#[test]
fn whitespace_only_input_is_empty() {
    assert_eq!(lex_tokens(""), Vec::<Token>::new());
    assert_eq!(lex_tokens("   "), Vec::<Token>::new());
    assert_eq!(lex_tokens(" \t\r\n \n"), Vec::<Token>::new());
}

#[test]
fn integer_overflow_is_invalid_number() {
    let err = lex_str("99999999999999999999").unwrap_err();
    assert_eq!(err.kind, LexErrorKind::InvalidNumber);
    assert_eq!(err.start, 0);
    assert_eq!(err.end, 20);
    // the largest value that still fits
    assert_eq!(
        lex_tokens("9223372036854775807"),
        vec![Token::IntLiteral(9223372036854775807)]
    );
}

#[test]
fn unexpected_character_is_reported() {
    let err = lex_str("#").unwrap_err();
    assert_eq!(err.kind, LexErrorKind::UnexpectedCharacter);
    assert_eq!(err.start, 0);
    assert_eq!(err.end, 1);
}

#[test]
fn unterminated_char_go_and_fstring() {
    let err = lex_str("'c").unwrap_err();
    assert_eq!(err.kind, LexErrorKind::UnterminatedLiteral);

    let err = lex_str("go {").unwrap_err();
    assert_eq!(err.kind, LexErrorKind::UnterminatedLiteral);

    let err = lex_str("f\"abc").unwrap_err();
    assert_eq!(err.kind, LexErrorKind::UnterminatedLiteral);
    assert_eq!(err.start, 0);
}

#[test]
fn go_needs_whitespace_before_brace() {
    // without whitespace after `go`, the word is the keyword and the brace
    // is an ordinary control character
    assert_eq!(
        lex_tokens("go{}"),
        vec![Token::Go, Token::ControlChar('{'), Token::ControlChar('}')]
    );
    assert_eq!(
        lex_tokens("go x"),
        vec![Token::Go, Token::Ident("x".to_string())]
    );
}

#[test]
fn spans_cover_the_tokens() {
    let src = "ab  cd";
    let chars: Vec<char> = src.chars().collect();
    let ctx = Context::new(String::from("file.duck"), src.chars().collect());
    let toks = lexer(&chars, &ctx).unwrap();
    assert_eq!(toks.len(), 2);
    assert_eq!((toks[0].1.start, toks[0].1.end), (0, 2));
    assert_eq!((toks[1].1.start, toks[1].1.end), (4, 6));
    // every span carries the shared file context
    assert_eq!(*toks[0].1.context.file_name, String::from("file.duck"));
    assert_eq!(*toks[1].1.context.file_name, String::from("file.duck"));
    assert_eq!(toks[0].1.context.file_contents.len(), 6);
}

#[test]
fn nested_fstring_spans_are_global() {
    let src = "f\"{1}\"";
    let chars: Vec<char> = src.chars().collect();
    let ctx = Context::new(String::from("test"), src.chars().collect());
    let toks = lexer(&chars, &ctx).unwrap();
    assert_eq!(toks.len(), 1);
    assert_eq!((toks[0].1.start, toks[0].1.end), (0, 6));
    match &toks[0].0 {
        Token::FormatStringLiteral(contents) => {
            assert_eq!(contents.len(), 1);
            match &contents[0] {
                FmtStringContents::Tokens(inner) => {
                    assert_eq!(inner.len(), 1);
                    assert_eq!(inner[0].0, Token::IntLiteral(1));
                    // offsets of nested tokens are in the file's own
                    // coordinate system
                    assert_eq!((inner[0].1.start, inner[0].1.end), (3, 4));
                }
                other => panic!("expected a token section, got {:?}", other),
            }
        }
        other => panic!("expected a format string, got {:?}", other),
    }
}

#[test]
fn token_empty_range_rewrites_nested_spans() {
    let src = "f\"{1}\"";
    let chars: Vec<char> = src.chars().collect();
    let ctx = Context::new(String::from("test"), src.chars().collect());
    let toks = lexer(&chars, &ctx).unwrap();
    let mut pair = toks.into_iter().next().unwrap();
    token_empty_range(&mut pair);
    assert_eq!(pair.1, empty_span());
    assert_eq!(
        pair.0,
        Token::FormatStringLiteral(vec![FmtStringContents::Tokens(vec![(
            Token::IntLiteral(1),
            empty_span()
        )])])
    );
}
