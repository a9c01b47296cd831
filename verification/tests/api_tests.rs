use ducklex::lexer::lex_fstring_tokens;
use ducklex::lexer::lex_single;
use ducklex::model::Context;
use ducklex::model::LexErrorKind;
use ducklex::model::Token;

fn setup(src: &str) -> (Vec<char>, Context) {
    let chars: Vec<char> = src.chars().collect();
    let ctx = Context::new(String::from("test"), src.chars().collect());
    (chars, ctx)
}

#[test]
fn lex_single_skips_leading_whitespace() {
    let (chars, ctx) = setup("  foo  bar");
    let out = lex_single(&chars, 0, &ctx).unwrap();
    let (tok, span, next) = out.unwrap();
    assert_eq!(tok, Token::Ident(String::from("foo")));
    assert_eq!((span.start, span.end), (2, 5));
    assert_eq!(next, 5);
    let out = lex_single(&chars, next, &ctx).unwrap();
    let (tok, span, next) = out.unwrap();
    assert_eq!(tok, Token::Ident(String::from("bar")));
    assert_eq!((span.start, span.end), (7, 10));
    assert_eq!(next, 10);
    let out = lex_single(&chars, next, &ctx).unwrap();
    assert_eq!(out.is_none(), true);
}

#[test]
fn lex_single_reports_failure() {
    let (chars, ctx) = setup("  ?");
    let err = lex_single(&chars, 0, &ctx).unwrap_err();
    assert_eq!(err.kind, LexErrorKind::UnexpectedCharacter);
    assert_eq!((err.start, err.end), (2, 3));
}

#[test]
fn fstring_tokens_keep_boundary_braces() {
    let (chars, ctx) = setup("{1}");
    let (toks, next) = lex_fstring_tokens(&chars, 0, &ctx).unwrap();
    assert_eq!(next, 3);
    let kinds: Vec<&Token> = toks.iter().map(|p| &p.0).collect();
    assert_eq!(
        kinds,
        vec![
            &Token::ControlChar('{'),
            &Token::IntLiteral(1),
            &Token::ControlChar('}'),
        ]
    );
    assert_eq!((toks[0].1.start, toks[0].1.end), (0, 1));
    assert_eq!((toks[1].1.start, toks[1].1.end), (1, 2));
    assert_eq!((toks[2].1.start, toks[2].1.end), (2, 3));
}

#[test]
fn describe_gives_diagnostic_text() {
    assert_eq!(Token::Type.describe(), "type");
    assert_eq!(Token::ThinArrow.describe(), "->");
    assert_eq!(Token::Ident(String::from("abc")).describe(), "identifier");
    assert_eq!(Token::ControlChar('=').describe(), "=");
    assert_eq!(Token::StringLiteral(String::from("hi")).describe(), "string hi");
    assert_eq!(Token::IntLiteral(7).describe(), "int");
    assert_eq!(Token::InlineGo(String::from("x")).describe(), "inline go");
}

#[test]
fn fstring_tokens_unterminated_section() {
    let (chars, ctx) = setup("{1");
    let err = lex_fstring_tokens(&chars, 0, &ctx).unwrap_err();
    assert_eq!(err.kind, LexErrorKind::UnterminatedLiteral);
}
